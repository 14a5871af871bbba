[package]
name = "corpus-core"
version = "0.1.0"
edition = "2021"
publish = false

[dependencies]
flate2 = "1"
getrandom = "0.3"
reqwest = { version = "0.12", default-features = false, features = ["blocking"] }
serde = { version = "1", features = ["derive"] }
serde_json = "1"
serde_yaml = "0.9"
sha2 = "0.10"
tar = "0.4"
tempfile = "3"
thiserror = "2"
toml = "0.8"
