[package]
name = "unibundle"
version = "0.1.0"
edition = "2021"
publish = false

[dependencies]
data-url = "*"
serde_json = "*"
dirs = "*"
reqwest = { version = "*", default-features = false }
tokio = { version = "*", default-features = false, features = ["rt", "fs", "macros"] }
