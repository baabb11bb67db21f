[package]
name = "member_verify"
version = "0.1.0"
edition = "2021"
publish = false

[dependencies]
serde_json = "=1.0.151"
url = "=2.5.8"
scraper = "=0.27.0"
rand = "=0.8.8"
uuid = { version = "=1.27.0", features = ["v1"] }
