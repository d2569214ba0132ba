[package]
name = "rusthydrus"
version = "0.1.0"
edition = "2021"
publish = false

[dependencies]
fnv = "=1.0.7"
md5 = "=0.7.0"
sha1 = "=0.10.7"
sha2 = "=0.10.9"
serde = { version = "=1.0.229", features = ["derive"] }
bincode = { version = "=2.0.1", features = ["serde"] }
interprocess = "=2.4.7"
log = "=0.4.35"
regex = "1"
