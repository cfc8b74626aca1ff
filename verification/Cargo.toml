[package]
name = "waitforit"
version = "0.1.0"
edition = "2021"
publish = false

[dependencies]
url = "2"
ureq = { version = "1", default-features = false }
