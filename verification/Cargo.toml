[package]
name = "hcc"
version = "0.1.0"
edition = "2021"
publish = false

[dependencies]
chrono = "0.4"
num-format = "0.4"
rustls = "0.19"
webpki = "0.21"
webpki-roots = "0.21"
x509-parser = "*"

[dev-dependencies]
serde_json = "1"
