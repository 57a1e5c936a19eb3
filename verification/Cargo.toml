[package]
name = "near_api"
version = "0.1.0"
edition = "2021"
publish = false

[dependencies]
bs58 = "=0.5.1"
near-account-id = "=3.0.0"
near-token = "=0.3.6"
near-gas = "=0.3.7"
sha2 = "=0.11.0"
keyring = "=4.2.0"
ed25519-dalek = "*"
serde = { version = "=1.0.229", features = ["derive"] }
serde_json = "=1.0.151"
tokio = { version = "=1.53.2", features = ["rt", "macros", "time"] }
reqwest = { version = "=0.13.5", default-features = false, features = ["json"] }

[dev-dependencies]
borsh = "=1.8.1"
