[package]
name = "secrets_manager"
version = "0.1.0"
edition = "2021"
publish = false

[dependencies]
age = "0.11"
anyhow = "1"
camino = "1"
clap = { version = "4", features = ["derive"] }
dirs = "*"
gethostname = "*"
rpassword = "7"
serde = { version = "1", features = ["derive"] }
sha256 = { version = "1", default-features = false }
thiserror = "1"
toml = "0.8"
