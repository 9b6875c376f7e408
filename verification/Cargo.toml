[package]
name = "twapi_ureq"
version = "0.1.0"
edition = "2021"
publish = false

[dependencies]
base64 = "=0.13.1"
bytebuffer = "=2.3.0"
rand = "=0.8.8"
serde_json = "=1.0.151"
serde_urlencoded = "=0.7.1"
twapi-oauth = "=0.1.4"
ureq = { version = "=2.12.1", features = ["json"] }
