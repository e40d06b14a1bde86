# service

A token service for Sui Move coins: it generates a coin module, its tests and its
`Move.toml` from a few details (name, symbol, description, decimals, freeze status,
network), and verifies that a given contract (or a repository's contract and manifest)
is exactly what it would generate for the details that the contract itself declares.

* `src/` is the library, verified with Verus: validation of creation requests, the
  parsers of contracts and manifests, sanitising of names, the comparison behind
  verification, the plain template language that token templates must be written in,
  the edit of a package's address in its manifest, the reading of the
  build output, the client's and the connection handler's decisions. The calls into
  std and outside crates that it relies on (`regex`, `url`, `rand`, `tera`, `toml`,
  `toml_edit`, `serde_json`, `char::is_alphanumeric`, `str::to_lowercase`/`to_uppercase`, `String::push`) are in
  `src/foreign.rs`, each with the contract it is trusted to meet.
* `app/` is the server program around it: the tarpc service, the Axum REST API, git
  clones, file and network access, tracing.
* `tests/` runs the library on concrete inputs.
