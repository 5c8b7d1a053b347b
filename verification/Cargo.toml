[package]
name = "auth_core"
version = "0.1.0"
edition = "2021"
publish = false

[dependencies]
bcrypt = "*"
chrono = "*"
jsonwebtoken = "9"

[dev-dependencies]
serde_json = "*"
