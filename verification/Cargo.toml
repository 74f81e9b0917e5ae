[package]
name = "minecraft_auth"
version = "0.1.0"
edition = "2021"

[dependencies]
serde = "1"
serde_json = "1"
reqwest = { version = "0.11", default-features = false, features = ["stream"] }
tokio = { version = "1", features = ["rt", "sync", "time", "fs", "macros", "io-util"] }
futures = "0.3"
dirs = "4"
zip = { version = "0.6", default-features = false, features = ["deflate"] }
log = "0.4"
