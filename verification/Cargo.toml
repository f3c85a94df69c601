[package]
name = "mic_capture"
version = "0.1.0"
edition = "2021"
publish = false

[dependencies]
hound = "=3.5.1"
cpal = "=0.15.3"
log = "0.4"
serde_json = "1"
reqwest = { version = "0.12", default-features = false, features = ["rustls-tls"] }
