[package]
name = "gelf"
version = "0.1.0"
edition = "2021"
publish = false

[dependencies]
chrono = "=0.4.45"
hostname = "=0.1.5"
libc = "=0.2.190"
libdeflater = "=1.26.1"
log = { version = "=0.4.34", features = ["std"] }
rand = "=0.8.8"

[dev-dependencies]
serde_json = "=1.0.151"
