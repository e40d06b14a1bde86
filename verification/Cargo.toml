[package]
name = "service"
version = "0.1.0"
edition = "2021"
publish = false

[dependencies]
regex = "1"
rand = "0.8"
url = "2"
tera = { version = "1", default-features = false }
toml = { version = "0.8", features = ["preserve_order"] }
toml_edit = "0.22"
serde = { version = "1", features = ["derive"] }
serde_json = "1"
thiserror = "1"
anyhow = "1"
tokio = { version = "1", features = ["full"] }
tarpc = { version = "0.34", features = ["full"] }
futures = "0.3"
axum = "0.7"
hyper = { version = "1", features = ["server", "http1"] }
hyper-util = { version = "0.1", features = ["tokio"] }
tower = { version = "0.4", features = ["full"] }
tower_governor = "0.4"
clap = { version = "4", features = ["derive"] }
tracing = "0.1"
tracing-subscriber = { version = "0.3", features = ["env-filter"] }
reqwest = { version = "0.12", default-features = false, features = ["json", "rustls-tls"] }
git2 = { version = "0.19", default-features = false }
dotenv = "0.15"
envy = "0.4"
once_cell = "1"
opentelemetry = "0.24"
opentelemetry_sdk = { version = "0.24", features = ["rt-tokio"] }
opentelemetry-otlp = "0.17"
tracing-opentelemetry = "0.25"
