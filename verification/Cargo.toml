[package]
name = "http_client"
version = "0.1.0"
edition = "2021"
publish = false

[dependencies]
base64 = "0.13"
bytes = "1"
uri = "0.4"
chrono = "0.4"
postgres = { version = "0.19", features = ["with-chrono-0_4"] }
