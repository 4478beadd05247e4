[package]
name = "matlog"
version = "0.1.0"
edition = "2021"
publish = false

[dependencies]
serde = "*"
serde_derive = "*"
serde_json = "*"
postgres = { version = "*", features = ["with-serde_json-1"] }
r2d2_postgres = "*"
