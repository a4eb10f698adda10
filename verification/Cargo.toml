[package]
name = "osmium"
version = "0.1.0"
edition = "2021"
publish = false

[dependencies]
chrono = { version = "=0.4.45", default-features = false, features = ["std", "clock"] }
chrono-tz = "=0.10.4"
sha2 = "=0.10.9"
hmac = "=0.12.1"
aes-gcm = "=0.10.3"
getrandom = "=0.3.4"
http = "=1.5.0"
url = "=2.5.8"
serde = { version = "1", features = ["derive"] }
serde_json = "1"
uuid = { version = "1", features = ["v4"] }
