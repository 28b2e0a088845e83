[package]
name = "echo_daily"
version = "0.1.0"
edition = "2021"
publish = false

[dependencies]
chrono = "*"
uuid = { version = "*", features = ["v4"] }
serde = { version = "*", features = ["derive"] }
serde_json = "*"
thiserror = "*"
base64 = "*"
async-trait = "*"
keyring = { version = "*", default-features = false }
reqwest = { version = "*", default-features = false, features = ["json"] }
