[package]
name = "ide_agent"
version = "0.1.0"
edition = "2021"
publish = false

[dependencies]
serde = { version = "1", features = ["derive"] }
serde_json = "1"
toml = "0.8"
url = "2"
keyring = { version = "3", default-features = false }
reqwest = { version = "0.12", default-features = false, features = ["blocking", "json"] }
backoff = "0.4"
chrono = { version = "0.4", default-features = false, features = ["clock"] }
directories = "5"
globset = "0.4"
