[package]
name = "imgforge"
version = "0.1.0"
edition = "2021"
publish = false

[dependencies]
sha2 = "0.10"
hmac = "0.12"
hex = "0.4"
urlencoding = "2"
chrono = "0.4"
uuid = { version = "1", features = ["v4"] }
serde = { version = "1", features = ["derive"] }
serde_json = "1"
csv = "1"
humantime = "2"
num_cpus = "1"
thiserror = "1"
tempfile = "3"
jwalk = "0.8"
tracing = "0.1"
indicatif = "0.17"
image = { version = "0.25", default-features = false, features = ["png", "jpeg"] }
rayon = "1"
