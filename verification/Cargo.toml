[package]
name = "geolite_db"
version = "0.1.0"
edition = "2021"
publish = false

[dependencies]
csv = "1"
flate2 = "1"
tar = "0.4"
maxminddb = "*"
reqwest = { version = "0.12", default-features = false }
tokio = { version = "1", features = ["rt", "macros", "time", "sync"] }
