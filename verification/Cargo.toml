[package]
name = "account_table"
version = "0.1.0"
edition = "2021"
publish = false

[dependencies]
native-tls = "0.2"
rand = "0.8"
serde = { version = "1", features = ["derive"] }
serde_json = "1"
tungstenite = "0.19"
