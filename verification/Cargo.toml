[package]
name = "dimmer"
version = "0.1.0"
edition = "2021"
publish = false

[dependencies]
querystring = "1.1"
serde = { version = "1", features = ["derive"] }
serde_json = "1"
embedded-svc = "0.26"
esp-idf-hal = "0.42"
esp-idf-svc = "0.47"
esp-idf-sys = "0.33"
