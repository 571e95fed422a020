[package]
name = "g_takeout_processor"
version = "0.1.0"
edition = "2021"
publish = false

[dependencies]
fuzzywuzzy = "*"
sha3 = "*"
serde = { version = "*", features = ["derive"] }
serde_json = "*"
chrono = "*"
filetime = "*"
