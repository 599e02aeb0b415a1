[package]
name = "telemetryforge"
version = "0.1.0"
edition = "2021"
publish = false

[dependencies]
anyhow = "1"
argon2 = "0.5"
rand_core = { version = "0.6", features = ["getrandom"] }
base64 = "0.22"
serde = { version = "1", features = ["derive"] }
serde_json = "1"
serde_yaml = "0.9"
chrono = "0.4"
parking_lot = "0.12"
tracing = "0.1"
zip = { version = "2", default-features = false, features = ["deflate"] }
image = { version = "0.25", default-features = false, features = ["png", "gif", "jpeg", "bmp", "webp"] }
imageproc = { version = "0.25", default-features = false }
ab_glyph = "0.2"
wasmi = "*"
wat = "1"
sysinfo = "0.35"
serialport = { version = "4", default-features = false }
axum = "0.8"
tokio = { version = "1", features = ["rt-multi-thread", "macros", "net", "time", "sync"] }
reqwest = { version = "0.12", default-features = false, features = ["blocking", "json", "rustls-tls"] }
