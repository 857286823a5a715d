[package]
name = "sapo"
version = "0.1.0"
edition = "2021"
publish = false

[dependencies]
reqwest = { version = "*", default-features = false, features = ["blocking"] }
serde_json = "*"
uuid = { version = "*", features = ["v4"] }
regex-lite = "*"
which = "*"
dirs = "*"
colored = "*"
clap = { version = "*", features = ["derive"] }
serde = { version = "*", features = ["derive"] }
