[package]
name = "wine-winget"
version = "0.1.0"
edition = "2021"
publish = false

[dependencies]
anyhow = "*"
clap = { version = "*", features = ["derive"] }
clap_complete = "*"
dirs = "*"
hex = "*"
log = "*"
pretty_env_logger = "*"
reqwest = { version = "*", default-features = false }
semver = "*"
serde = { version = "*", features = ["derive"] }
sha2 = "*"
tokio = { version = "*", features = ["macros", "rt-multi-thread"] }
yaml_serde = "*"
