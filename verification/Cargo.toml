[package]
name = "smart_garden"
version = "0.1.0"
edition = "2021"
publish = false

[dependencies]
image = { version = "0.23", default-features = false }
qrcode = { version = "0.12", default-features = false }
serde = { version = "1", features = ["derive"] }
serde_json = "1"
rusqlite = { version = "0.23", features = ["bundled"] }
paho-mqtt = "0.7"
gpio-cdev = "0.4"
linux-embedded-hal = "0.3"
ssd1306 = "0.4"
embedded-graphics = "0.6"
machine-ip = "*"
uuid = { version = "0.8", features = ["v4"] }
