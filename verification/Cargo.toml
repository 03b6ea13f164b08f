[package]
name = "ruxc"
version = "0.1.0"
edition = "2021"
publish = false

[dependencies]
url = "2"
ureq = "~2.2"
rustls = { version = "0.19", features = ["dangerous_configuration"] }
webpki = "0.21"
libc = "0.2"
