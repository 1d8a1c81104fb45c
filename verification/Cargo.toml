[package]
name = "quartz_launcher"
version = "0.1.0"
edition = "2021"
publish = false

[dependencies]
serde = { version = "1", features = ["derive"] }
serde_json = "1"
lexical-sort = "0.3"
chrono = "0.4"
rc-zip-sync = "4"
zip = { version = "2", default-features = false, features = ["deflate"] }
rand = "0.8"
parking_lot = "0.12"
