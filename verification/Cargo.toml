[package]
name = "skool"
version = "0.1.0"
edition = "2021"
publish = false

[dependencies]
aes-gcm-siv = "*"
blake3 = "*"
chrono = "*"
chrono-tz = "*"
rand = "*"
uuid = { version = "*", features = ["v5"] }
scraper = "*"
serde = { version = "*", features = ["derive"] }
serde_json = "*"
rmp-serde = "*"
reqwest = { version = "*", default-features = false, features = ["blocking", "cookies", "json", "rustls-tls"] }
