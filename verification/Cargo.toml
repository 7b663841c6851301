[package]
name = "recipier"
version = "0.1.0"
edition = "2021"
publish = false

[dependencies]
hashbrown = "=0.11.2"
lru = "=0.7.8"
uuid = { version = "=0.8.2", features = ["v4", "serde"] }
sublime_fuzzy = "=0.7.0"
serde = { version = "=1.0.229", features = ["derive"] }
serde_json = "=1.0.154"
chrono = { version = "=0.4.45", features = ["serde"] }
parking_lot = "=0.11.2"
log = "=0.4.34"
simplelog = "=0.11.2"
image = { version = "=0.23.14", default-features = false, features = ["png"] }
lazy_static = "=1.5.1"
semver = "=1.0.28"
thiserror = "=1.0.69"
ureq = { version = "=2.12.1", features = ["json"] }
zip = "=0.5.13"
tempfile = "=3.27.0"
