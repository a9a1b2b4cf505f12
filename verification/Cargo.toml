[package]
name = "offline_bitcoin_atm"
version = "0.1.0"
edition = "2021"
publish = false

[dependencies]
qrcode = { version = "*", default-features = false }
percent-encoding = "*"
serde = { version = "1", features = ["derive"] }
serde_json = "1"
embedded-graphics = "*"
embedded-hal = "1"
epd-waveshare = "*"
esp-idf-hal = "*"
esp-idf-svc = "*"
log = "*"
