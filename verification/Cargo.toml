[package]
name = "playlist"
version = "0.1.0"
edition = "2021"
publish = false

[dependencies]
rspotify = { version = "=0.12.0", default-features = false, features = ["client-ureq", "ureq-rustls-tls", "cli"] }
rand = "=0.8.8"
log = "=0.4.35"
env_logger = "=0.10.2"
steel-core = { version = "=0.7.0", default-features = false }
steel-derive = "=0.6.0"
