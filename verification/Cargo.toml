[package]
name = "query_compiler"
version = "0.1.0"
edition = "2021"
publish = false

[dependencies]
serde_json = "*"
uuid = { version = "*", features = ["v4", "v7"] }
ulid = "*"
cuid = "*"
nanoid = "*"
chrono = "*"
