[package]
name = "bootc_base_imagectl"
version = "0.1.0"
edition = "2021"
publish = false

[dependencies]
anyhow = "1"
camino = "1"
cap-std-ext = "*"
clap = { version = "4", features = ["derive"] }
fn-error-context = "*"
serde = { version = "1", features = ["derive"] }
serde_json = "1"
serde_yaml_ng = "*"
toml = "*"
tracing = "0.1"
tracing-subscriber = { version = "0.3", features = ["env-filter"] }

[dev-dependencies]
tempfile = "3"
