[package]
name = "vault_cipher"
version = "0.1.0"
edition = "2021"
publish = false

[dependencies]
chrono = "0.4"
serde_json = "1.0"
uuid = { version = "1", features = ["v4"] }
serde = { version = "1.0", features = ["derive"] }
derive_more = { version = "2", features = ["as_ref", "deref", "display", "from"] }
diesel = { version = "2.2", features = ["sqlite", "chrono"] }
