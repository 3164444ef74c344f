[package]
name = "mangatan"
version = "0.1.0"
edition = "2021"
publish = false

[dependencies]
anyhow = "=1.0.104"
async-trait = "=0.1.92"
avif-decode = { version = "=1.0.2", default-features = false }
axum = "=0.8.9"
chrome_lens_ocr = "=0.3.0"
chrono = { version = "=0.4.45", default-features = false, features = ["clock"] }
flate2 = "=1.1.10"
google-drive3 = "=7.0.0"
http-body-util = "=0.1.5"
image = { version = "=0.25.10", default-features = false, features = ["png", "jpeg", "webp", "gif", "bmp"] }
lazy_static = "=1.5.1"
mime = "=0.3.17"
regex = "=1.13.1"
reqwest = { version = "=0.12.28", default-features = false, features = ["json"] }
serde = { version = "=1.0.229", features = ["derive"] }
serde_json = "=1.0.154"
tokio = { version = "=1.54.1", features = ["time", "sync"] }
tower-http = { version = "=0.6.11", features = ["cors"] }
tracing = "=0.1.44"
urlencoding = "=2.1.3"
uuid = { version = "=1.29.0", features = ["v4"] }
