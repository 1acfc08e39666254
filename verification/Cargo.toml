[package]
name = "mediawiki_dump"
version = "0.1.0"
edition = "2021"
publish = false

[dependencies]
quick-xml = "=0.28.2"
memchr = "=2.8.3"
bzip2 = "=0.6.1"
rust-lzma = "=0.6.0"
chrono = { version = "=0.4.45", features = ["serde"] }
serde = { version = "=1.0.229", features = ["derive"] }
serde_cbor = "=0.11.2"
thiserror = "=2.0.21"
anyhow = "=1.0.104"
pico-args = "=0.5.0"
bincode = "=1.3.3"
either = "=1.18.0"
rmp-serde = "=1.3.1"
serde_json = "=1.0.151"
