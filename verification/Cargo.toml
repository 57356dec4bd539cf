[package]
name = "microwave"
version = "0.1.0"
edition = "2021"
publish = false

[dependencies]
anyhow = "1"
awedio = { version = "0.4", default-features = false }
awedio_esp32 = "0.5"
esp-idf-svc = "*"
log = "0.4"
