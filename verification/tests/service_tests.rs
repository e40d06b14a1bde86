use service::client::{plan_command, require_param, ClientCommand, ClientError, CommandFlags};
use service::errors::TokenGenErrors;
use service::server_helper::{classify_connection, looks_like_http, ConnectionKind};
use service::utils::generation::{
    generate_move_toml, generate_token, ContractGenerator, TokenTemplates,
};
use service::utils::helpers::{
    extract_module_and_coin, filter_whitespace_and_empty_lines, get_environment_from_toml,
    get_token_info, is_valid_repository_url, repo_dir_name, sanitize_name, sanitize_repo_name,
    sanitize_repo_name_with_random,
};
use service::utils::server_types::{create_token, validate_create_request, VerifyUrlResponse};
use service::utils::template::is_plain_template;
use service::utils::sui_helper::{
    build_outcome, check_metadata_status, check_object_status, get_rpc_url, metadata_from_result, plan_sui_contract,
    set_package_address, CoinMetadata,
};
use service::utils::verify_helper::{
    compare_bytecode, compare_contract_content, compare_token_content, full_coin_type,
    is_move_source_file, repo_name_from_url, validate_url, verify_repository_contents,
};

const TOKEN_TEMPLATE: &str = "/// name: {{ name }}
/// symbol: {{ symbol }}
/// description: {{ description }}
/// decimals: {{ decimals }}
/// is_frozen: {{ is_frozen }}
module {{ coin_name }}::{{ coin_name }} {
    public struct {{ token_type }} has drop {}
}
";

const TEST_TEMPLATE: &str = "module {{ coin_name }}::{{ coin_name }}_tests {
    // {{ module_name }}
}
";

fn templates() -> TokenTemplates {
    TokenTemplates { token: TOKEN_TEMPLATE.to_string(), token_tests: TEST_TEMPLATE.to_string() }
}

fn create(
    decimals: u8,
    name: &str,
    symbol: &str,
    description: &str,
    environment: &str,
) -> Result<(String, String, String), TokenGenErrors> {
    create_token(
        &templates(),
        decimals,
        name.to_string(),
        symbol.to_string(),
        description.to_string(),
        false,
        environment.to_string(),
    )
}

#[test]
fn sanitize_name_keeps_alphanumerics() {
    assert_eq!(sanitize_name("Test Token"), "TestToken");
    assert_eq!(sanitize_name("a-b_c.d 1"), "abcd1");
    assert_eq!(sanitize_name("Tök€n🔹"), "Tökn");
    assert_eq!(sanitize_name(""), "");
    let once = sanitize_name("My $ Coin 2");
    assert_eq!(sanitize_name(&once), once);
}

#[test]
fn sanitize_repo_name_is_idempotent_and_safe() {
    for name in ["../a/b", "..", "x.y", "\\\\srv\\share", "repo", ""] {
        let once = sanitize_repo_name(name);
        assert!(!once.is_empty());
        assert!(!once.contains('.') && !once.contains('/') && !once.contains('\\'));
        assert_eq!(sanitize_repo_name(&once), once);
    }
}

#[test]
fn random_repo_names_have_the_expected_shape() {
    let dir = sanitize_repo_name_with_random("../my.repo");
    assert_eq!(dir.len(), "myrepo".len() + 9);
    assert!(dir.starts_with("myrepo_"));
    assert!(dir["myrepo_".len()..].chars().all(|c| c.is_ascii_alphanumeric()));
    assert_eq!(repo_dir_name("base", "suffix"), "base_suffix");
}

#[test]
fn filter_lowercases_and_drops_blank_lines() {
    let r = filter_whitespace_and_empty_lines("  Module A {\n\n\t Fun B  \r\n   \n}\n");
    assert_eq!(r, Ok("module a {\nfun b\n}".to_string()));
    assert_eq!(filter_whitespace_and_empty_lines(""), Ok(String::new()));
}

#[test]
fn filter_rejects_comments() {
    assert_eq!(
        filter_whitespace_and_empty_lines("module a {\n  # hidden\n}"),
        Err(TokenGenErrors::ContractModified)
    );
    assert_eq!(
        filter_whitespace_and_empty_lines("/* block */\nmodule a {}"),
        Err(TokenGenErrors::ContractModified)
    );
    // `//` comments are kept.
    assert_eq!(filter_whitespace_and_empty_lines("// Line"), Ok("// line".to_string()));
}

#[test]
fn environment_is_read_from_the_rev_line() {
    let toml = "[dependencies.Sui]\nsubdir = \"x\"\n  rev = \"framework/testnet\"  \nrev = \"framework/mainnet\"\n";
    assert_eq!(get_environment_from_toml(toml), Some("testnet".to_string()));
    assert_eq!(get_environment_from_toml("rev = main"), Some("main".to_string()));
    assert_eq!(get_environment_from_toml("revision = \"a/b\"\n"), None);
    assert_eq!(get_environment_from_toml(""), None);
}

#[test]
fn token_info_parses_numbers_and_booleans_like_std() {
    let info = get_token_info("/// decimals: +7\n/// is_frozen: TRUE\n");
    assert_eq!(info.decimals, 7);
    assert!(!info.is_frozen);
    assert_eq!(get_token_info("/// decimals: 256").decimals, 0);
    assert_eq!(get_token_info("/// decimals: 255").decimals, 255);
    assert_eq!(get_token_info("/// decimals: -1").decimals, 0);
    assert_eq!(get_token_info("/// decimals: 007").decimals, 7);
}

#[test]
fn token_info_keys_are_case_insensitive_and_later_lines_win() {
    let info = get_token_info("/// NAME: First\n//////Name : Second\n/// name Third\n");
    assert_eq!(info.name, "Second");
    let info = get_token_info("/// symbol: A\nnot a doc line: B\n");
    assert_eq!(info.symbol, "A");
}

#[test]
fn descriptions_with_symbols_are_quoted() {
    assert_eq!(get_token_info("/// description: plain text, ok!").description, "plain text, ok!");
    assert_eq!(get_token_info("/// description: naïve (beta) - v2").description, "naïve (beta) - v2");
    assert_eq!(get_token_info("/// description: a^b").description, "\"a^b\"");
    assert_eq!(get_token_info("/// description: 50% off").description, "\"50% off\"");
}

#[test]
fn repository_urls() {
    assert_eq!(is_valid_repository_url("https://github.com/valid/repo"), Ok(true));
    assert_eq!(is_valid_repository_url("http://www.gitlab.com/a-b/c_d/"), Ok(true));
    assert_eq!(
        is_valid_repository_url("https://example.com/not-a-git-repo.git"),
        Err(TokenGenErrors::InvalidGitUrl)
    );
    assert_eq!(repo_name_from_url("https://github.com/o/repo.git.git"), "repo");
    assert_eq!(repo_name_from_url("https://github.com/o/repo/"), "");
}

#[test]
fn validate_url_errors_and_folder() {
    assert_eq!(validate_url("not_a_url"), Err(TokenGenErrors::InvalidUrl));
    assert_eq!(
        validate_url("https://example.com/not-a-git-repo.git"),
        Err(TokenGenErrors::InvalidGitUrl)
    );
    let dir = validate_url("https://github.com/valid/repo").unwrap();
    assert!(dir.starts_with("repo_"));
    assert_eq!(dir.len(), 13);
    let dir = validate_url("https://github.com/valid/repo/").unwrap();
    assert!(dir.starts_with("default_repo_"));
    assert!(!dir.contains('/') && !dir.contains('.') && !dir.contains('\\'));
}

#[test]
fn module_and_coin_are_extracted() {
    let code = "module 0a1b.my_coin {\n use 0x2::coin;\n coin::create_currency<MY_COIN>(w);\n transfer::public_freeze_object(m);\n}";
    assert_eq!(
        extract_module_and_coin(code),
        Some(("my_coin".to_string(), "MY_COIN".to_string(), true))
    );
    let shared = format!("{}\ntransfer::public_share_object(x);", code);
    assert_eq!(
        extract_module_and_coin(&shared),
        Some(("my_coin".to_string(), "MY_COIN".to_string(), false))
    );
    assert_eq!(extract_module_and_coin("module x {}"), None);
}

#[test]
fn token_generation_renders_the_template() {
    let token = generate_token(
        &templates(),
        8,
        "TST".to_string(),
        "Test Token".to_string(),
        "Desc".to_string(),
        true,
        false,
    )
    .unwrap();
    assert!(token.contains("/// name: Test Token"));
    assert!(token.contains("/// decimals: 8"));
    assert!(token.contains("/// is_frozen: true"));
    assert!(token.contains("module testtoken::testtoken {"));
    assert!(token.contains("public struct TESTTOKEN has drop {}"));
    let tests = generate_token(
        &templates(),
        8,
        "TST".to_string(),
        "Test Token".to_string(),
        "Desc".to_string(),
        true,
        true,
    )
    .unwrap();
    assert!(tests.contains("// TestToken"));
    let broken = TokenTemplates { token: "{{ unclosed".to_string(), token_tests: String::new() };
    assert_eq!(
        generate_token(&broken, 8, "T".into(), "N".into(), "".into(), false, false),
        Err(TokenGenErrors::TemplateError)
    );
}

#[test]
fn move_toml_is_generated() {
    let toml = generate_move_toml("TestToken".to_string(), "testnet".to_string());
    assert!(toml.starts_with("[package]\nname = \"testtoken\"\n"));
    assert!(toml.contains("edition = \"2024.beta\""));
    assert!(toml.contains("version = \"0.0.1\""));
    assert!(toml.contains("[dependencies.Sui]"));
    assert!(toml.contains("git = \"https://github.com/MystenLabs/sui.git\""));
    assert!(toml.contains("rev = \"framework/testnet\""));
    assert!(toml.contains("[addresses]\nTestToken = \"0x0\""));
    assert_eq!(get_environment_from_toml(&toml), Some("testnet".to_string()));
}

#[test]
fn contract_generator_paths() {
    let g = ContractGenerator::new("/tmp/pkg".to_string());
    assert_eq!(g.create_base_folder(), vec!["/tmp/pkg/sources".to_string(), "/tmp/pkg/tests".to_string()]);
    assert_eq!(g.contract_file_path("My Coin!", "sources"), "/tmp/pkg/sources/mycoin.move");
    assert_eq!(g.move_toml_path(), "/tmp/pkg/Move.toml");
    assert_eq!(g.dir_path("x"), "/tmp/pkg/x");
}

#[test]
fn server_test_create_token_validation() {
    // Invalid decimals (0 and >= 100).
    assert!(matches!(
        create(0, "Test", "TST", "Description", "devnet"),
        Err(TokenGenErrors::InvalidDecimals)
    ));
    // Invalid symbol (too long).
    assert!(matches!(
        create(8, "Test", "TSTSTST", "Description", "devnet"),
        Err(TokenGenErrors::InvalidSymbol)
    ));
    // Invalid symbol (contains special characters).
    assert!(matches!(
        create(8, "Test", "T$T", "Description", "devnet"),
        Err(TokenGenErrors::InvalidSymbol)
    ));
    // Invalid name (contains special characters).
    assert!(matches!(
        create(8, "Test@", "TST", "Description", "devnet"),
        Err(TokenGenErrors::InvalidName)
    ));
    // Invalid description (contains special characters).
    assert!(matches!(
        create(8, "Test", "TST", "Test@Description", "devnet"),
        Err(TokenGenErrors::InvalidDescription)
    ));
    // Valid input.
    assert!(create(8, "Test Token", "TST", "Test Description", "devnet").is_ok());
    // Valid name with (.)
    assert!(create(8, ".sh", "TST", "Description", "devnet").is_ok());
}

#[test]
fn server_test_verify_url_validation() {
    assert!(validate_url("not_a_url").is_err());
    assert!(validate_url("https://example.com/not-a-git-repo.git").is_err());
    // A `.git` suffix is not accepted by the repository URL pattern.
    assert!(validate_url("https://github.com/valid/repo.git").is_err());
}

#[test]
fn create_validation_edges() {
    assert_eq!(create(100, "Test", "TST", "Description", "devnet"), Err(TokenGenErrors::InvalidDecimals));
    assert_eq!(create(8, "Test", "", "Description", "devnet"), Err(TokenGenErrors::InvalidSymbol));
    assert_eq!(create(8, "", "TST", "Description", "devnet"), Err(TokenGenErrors::InvalidName));
    assert!(create(99, "Test", "ABCDEF", "", "devnet").is_ok());
    assert_eq!(validate_create_request(8, "A", "B", "", "mainnet"), Ok("mainnet".to_string()));
    assert_eq!(validate_create_request(8, "A", "B", "", "moon"), Ok("devnet".to_string()));
    let (_, toml, _) = create(8, "A", "B", "", "moon").unwrap();
    assert!(toml.contains("rev = \"framework/devnet\""));
}

#[test]
fn created_contracts_verify() {
    let (token, toml, tests) = create(8, "Test Token", "TST", "Test Description", "testnet").unwrap();
    assert!(tests.contains("testtoken_tests"));
    assert_eq!(compare_contract_content(&templates(), token.clone(), toml.clone()), Ok(()));
    assert_eq!(compare_token_content(&templates(), token.clone()), Ok(()));
    assert_eq!(verify_repository_contents(&templates(), token.clone(), toml.clone()), Ok(()));
    let modified = token.replace("has drop", "has drop, store");
    assert_eq!(
        compare_contract_content(&templates(), modified.clone(), toml.clone()),
        Err(TokenGenErrors::ContractModified)
    );
    assert_eq!(compare_token_content(&templates(), modified), Err(TokenGenErrors::ContractModified));
    let other_network = toml.replace("framework/testnet", "framework/mainnet");
    assert_eq!(compare_contract_content(&templates(), token.clone(), other_network), Ok(()));
    let other_address = toml.replace("0x0", "0x1");
    assert_eq!(
        compare_contract_content(&templates(), token.clone(), other_address),
        Err(TokenGenErrors::ContractModified)
    );
    let commented = format!("# note\n{}", token);
    assert_eq!(
        compare_contract_content(&templates(), commented, toml.clone()),
        Err(TokenGenErrors::ContractModified)
    );
    assert_eq!(
        verify_repository_contents(&templates(), String::new(), toml),
        Err(TokenGenErrors::InvalidPathNoMoveFiles)
    );
}

#[test]
fn rpc_tests_test_verify_content_validation() {
    let t = templates();
    assert!(compare_token_content(&t, "".into()).is_err());
    assert!(compare_token_content(&t, "invalid content".into()).is_err());
    assert!(compare_token_content(&t, "module test { public fun main() { } }".into()).is_err());
}

#[test]
fn move_source_files() {
    assert!(is_move_source_file("coin.move"));
    assert!(!is_move_source_file(".move"));
    assert!(!is_move_source_file("a.b.move"));
    assert!(!is_move_source_file("coin.MOVE"));
    assert!(!is_move_source_file("coin"));
}

#[test]
fn bytecode_and_coin_type() {
    assert_eq!(compare_bytecode("\"AbC\"", "AbC"), Ok(()));
    assert_eq!(compare_bytecode("AbC", "abc"), Err(TokenGenErrors::ContractModified));
    assert_eq!(full_coin_type("0x1", "m", "C"), "0x1::m::C");
}

#[test]
fn rpc_urls() {
    assert_eq!(get_rpc_url("devnet"), Ok("https://fullnode.devnet.sui.io:443"));
    assert_eq!(get_rpc_url("testnet"), Ok("https://fullnode.testnet.sui.io:443"));
    assert_eq!(get_rpc_url("mainnet"), Ok("https://fullnode.mainnet.sui.io:443"));
    assert_eq!(get_rpc_url("localnet"), Err(TokenGenErrors::InvalidAddress));
}

#[test]
fn coin_metadata_defaults() {
    let m = CoinMetadata::from_rpc_fields(Some(300), Some("Coin".into()), None, None);
    assert_eq!(m.decimals, 44);
    assert_eq!(m.name, "Coin");
    assert_eq!(m.symbol, "");
    assert_eq!(m.description, "");
    let plan = plan_sui_contract(&templates(), &m, "devnet", true).unwrap();
    assert_eq!(plan.project_folder, "coin");
    assert!(plan.token_content.contains("/// decimals: 44"));
    assert!(plan.move_toml_content.contains("rev = \"framework/devnet\""));
}

#[test]
fn error_messages_and_statuses() {
    assert_eq!(TokenGenErrors::InvalidDecimals.http_status(), 400);
    assert_eq!(TokenGenErrors::ContractModified.http_status(), 422);
    assert_eq!(TokenGenErrors::VerifyResultError("x".into()).http_status(), 422);
    assert_eq!(TokenGenErrors::InvalidUrl.http_status(), 404);
    assert_eq!(TokenGenErrors::GitError("x".into()).http_status(), 500);
    assert_eq!(TokenGenErrors::GitError("boom".into()).message(), "Git operation failed: boom");
    assert_eq!(TokenGenErrors::InvalidSymbol.message(), "Invalid symbol provided");
    assert_eq!(
        TokenGenErrors::InvalidGitUrl.into_verify_result_error(),
        TokenGenErrors::VerifyResultError("The provided URL is not a valid Git URL.".into())
    );
    let (status, body) = VerifyUrlResponse::for_verification(&Err(TokenGenErrors::ClonedRepoNotFound));
    assert_eq!(status, 400);
    assert!(!body.success);
    assert_eq!(body.error, Some("Cloned repo not found".to_string()));
    let (status, body) = VerifyUrlResponse::for_verification(&Ok(()));
    assert_eq!(status, 200);
    assert_eq!(body.message, "Verified successfully");
    let (status, body) = VerifyUrlResponse::creation_failed(&TokenGenErrors::InvalidName);
    assert_eq!(status, 400);
    assert_eq!(body.message, "Creation failed");
}

#[test]
fn client_parameters() {
    assert_eq!(require_param(Some(3), "decimals", "create"), Ok(3));
    assert_eq!(
        require_param::<u8>(None, "decimals", "create"),
        Err(ClientError::MissingParameter("decimals is required for 'create' command".into()))
    );
    let flags = |command: Option<&str>| CommandFlags {
        command: command.map(String::from),
        name: Some("N".into()),
        symbol: Some("S".into()),
        description: None,
        decimals: Some(2),
        is_frozen: Some(false),
        environment: Some("devnet".into()),
        url: Some("https://github.com/a/b".into()),
        content: None,
    };
    assert_eq!(
        plan_command(flags(Some("verify_url"))),
        Ok(ClientCommand::VerifyUrl("https://github.com/a/b".into()))
    );
    assert_eq!(
        plan_command(flags(Some("verify_content"))),
        Err(ClientError::MissingParameter("content is required for 'verify' command".into()))
    );
    assert_eq!(
        plan_command(flags(Some("create"))),
        Err(ClientError::MissingParameter("description is required for 'create' command".into()))
    );
    assert_eq!(plan_command(flags(Some("delete"))), Err(ClientError::InvalidInputs("delete".into())));
    assert_eq!(
        plan_command(flags(None)),
        Err(ClientError::MissingParameter("command is required (either 'create' or 'verify')".into()))
    );
    assert_eq!(
        ClientError::from_token_error(&TokenGenErrors::InvalidName).message(),
        "Invalid inputs: Invalid name provided"
    );
}

#[test]
fn connection_kinds() {
    assert!(looks_like_http(b"GET / HTTP/1.1"));
    assert!(looks_like_http(b"POST"));
    assert!(looks_like_http(b"DELETE /x"));
    assert!(!looks_like_http(b"GE"));
    assert!(!looks_like_http(b"{\"id\""));
    assert_eq!(classify_connection(b"GET ", 4), ConnectionKind::Http);
    assert_eq!(classify_connection(b"\0\0\0\x10", 4), ConnectionKind::Rpc);
    assert_eq!(classify_connection(b"GET ", 2), ConnectionKind::Incomplete);
}

#[test]
fn templates_cannot_read_the_environment() {
    let reads_env = TokenTemplates {
        token: "{{ get_env(name=\"PATH\", default=\"none\") }}".to_string(),
        token_tests: String::new(),
    };
    assert_eq!(
        generate_token(&reads_env, 8, "T".into(), "N".into(), "".into(), false, false),
        Err(TokenGenErrors::TemplateError)
    );
    let plain = TokenTemplates { token: "{{ name }}-{{ decimals }}".to_string(), token_tests: String::new() };
    assert_eq!(
        generate_token(&plain, 8, "T".into(), "Coin".into(), "".into(), false, false),
        Ok("Coin-8".to_string())
    );
}

#[test]
fn cleaning_twice_changes_nothing() {
    let once = filter_whitespace_and_empty_lines("  Module X {\n\n\t Public Fun  \n}  ").unwrap();
    assert_eq!(once, "module x {\npublic fun\n}");
    assert_eq!(filter_whitespace_and_empty_lines(&once), Ok(once.clone()));
}

#[test]
fn package_address_is_set_under_the_package_name() {
    let manifest = "[package]\nname = \"mycoin\"\n\n[addresses]\nmycoin = \"0x0\"\n";
    let edited = set_package_address(manifest, "0x123").unwrap();
    assert!(edited.contains("mycoin = \"0x123\""));
    assert!(!edited.contains("0x0"));
    assert!(edited.starts_with("[package]\nname = \"mycoin\"\n"));

    let added = set_package_address("[package]\nname = \"c\"\n", "0x9").unwrap();
    assert!(added.contains("addresses"));
    assert!(added.contains("c = \"0x9\""));

    let unnamed = set_package_address("[addresses]\n", "0x1").unwrap();
    assert!(unnamed.contains("\"\" = \"0x1\""));

    assert_eq!(set_package_address("[[[", "0x1"), None);
    assert_eq!(set_package_address("addresses = 5\n", "0x1"), None);
}

#[test]
fn build_outcomes() {
    assert_eq!(
        build_outcome(false, "", "boom"),
        Err("Sui move build failed: boom".to_string())
    );
    assert_eq!(
        build_outcome(true, "{\"modules\":[\"abc\",\"def\"],\"dependencies\":[]}", ""),
        Ok("abc".to_string())
    );
    let not_json = build_outcome(true, "not json", "").unwrap_err();
    assert!(not_json.starts_with("expected"));
    assert_eq!(
        build_outcome(true, "{\"modules\":[]}", ""),
        Err("Failed to extract bytecode from modules".to_string())
    );
}

#[test]
fn coin_metadata_replies() {
    assert_eq!(check_metadata_status(true, "200 OK"), Ok(()));
    assert_eq!(
        check_metadata_status(false, "404 Not Found"),
        Err(TokenGenErrors::RpcError("Failed to fetch metadata, status: 404 Not Found".to_string()))
    );
    assert!(matches!(metadata_from_result(None), Err(TokenGenErrors::InvalidMetadata)));
    let m = metadata_from_result(Some((Some(300), Some("Coin".to_string()), None, Some("d".to_string()))))
        .ok()
        .unwrap();
    assert_eq!(m.decimals, 44);
    assert_eq!(m.name, "Coin");
    assert_eq!(m.symbol, "");
    assert_eq!(m.description, "d");
}

#[test]
fn object_status() {
    assert_eq!(check_object_status(true), Ok(()));
    assert_eq!(
        check_object_status(false),
        Err(TokenGenErrors::FetchObjectError("Error fetching module data".to_string()))
    );
}

#[test]
fn plain_templates() {
    assert!(is_plain_template(TOKEN_TEMPLATE));
    assert!(is_plain_template(TEST_TEMPLATE));
    assert!(is_plain_template("a {% if is_frozen %}F{% elif name %}N{% else %}S{% endif %} b"));
    assert!(is_plain_template("{{ name | upper }} {{ loop.index }} {} { x }"));
    assert!(!is_plain_template("{% for c in name %}{{ c }}{% endfor %}"));
    assert!(!is_plain_template("{{ range(end=3, step_by=0) }}"));
    assert!(!is_plain_template("{% macro m() %}{{ self::m() }}{% endmacro %}"));
    assert!(!is_plain_template("{% set a = name ~ name %}"));
    assert!(!is_plain_template("{# note #}"));
    assert!(!is_plain_template("{{- name }}"));
    assert!(!is_plain_template("{{ name"));
    let long = format!("{{{{ {} }}}}", "a".repeat(65));
    assert!(!is_plain_template(&long));
    let many = "{% if a %}x{% endif %}".repeat(32);
    assert!(is_plain_template(&many));
    let too_many = format!("{}{{% if a %}}{{% endif %}}", many);
    assert!(!is_plain_template(&too_many));
}

#[test]
fn conditional_templates_render() {
    let t = TokenTemplates {
        token: "{% if is_frozen %}frozen {{ coin_name }}{% else %}shared{% endif %}".to_string(),
        token_tests: String::new(),
    };
    assert_eq!(
        generate_token(&t, 8, "T".into(), "My Coin".into(), "".into(), true, false),
        Ok("frozen mycoin".to_string())
    );
    assert_eq!(
        generate_token(&t, 8, "T".into(), "My Coin".into(), "".into(), false, false),
        Ok("shared".to_string())
    );
    let looping = TokenTemplates { token: "{% for c in name %}{% endfor %}".to_string(), token_tests: String::new() };
    assert_eq!(
        generate_token(&looping, 8, "T".into(), "N".into(), "".into(), false, false),
        Err(TokenGenErrors::TemplateError)
    );
}
