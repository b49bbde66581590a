[package]
name = "ws2812_rmt"
version = "0.1.0"
edition = "2021"
publish = false

[dependencies]
anyhow = "*"
embedded-svc = "*"
esp-idf-hal = "*"
esp-idf-svc = "*"
log = "*"
rgb = "*"
toml-cfg = "*"
