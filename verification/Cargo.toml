[package]
name = "barter"
version = "0.1.0"
edition = "2021"
publish = false

[dependencies]
chrono = { version = "=0.4.45", default-features = false, features = ["std", "clock", "serde"] }
fnv = "=1.0.7"
futures = "=0.3.34"
hex = "=0.4.3"
hmac = "=0.12.1"
itertools = "=0.13.0"
reqwest = { version = "=0.12.28", default-features = false, features = ["json", "rustls-tls"] }
rust_decimal = { version = "=1.43.0", default-features = false, features = ["std", "serde"] }
serde = { version = "=1.0.229", features = ["derive"] }
serde_json = "=1.0.154"
sha2 = "=0.10.9"
tokio = { version = "=1.54.1", features = ["rt", "macros", "sync", "time"] }
tokio-stream = { version = "=0.1.19", features = ["sync"] }
tokio-tungstenite = { version = "=0.30.0", features = ["rustls-tls-webpki-roots"] }
tracing = "=0.1.44"
url = "=2.5.8"
