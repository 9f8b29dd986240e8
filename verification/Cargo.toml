[package]
name = "upload_gateway"
version = "0.1.0"
edition = "2021"
publish = false

[dependencies]
axum = "=0.8.9"
backblaze-b2-client = "=0.2.0"
chrono = "=0.4.45"
colored = "=3.1.1"
dotenvy = "=0.15.7"
futures = "=0.3.34"
hmac = "=0.12.1"
jwt = "=0.16.0"
rand = "=0.10.3"
serde = { version = "=1.0.229", features = ["derive"] }
serde_json = "=1.0.151"
sha2 = "=0.10.9"
tokio = { version = "=1.53.2", features = ["macros", "rt-multi-thread", "net", "io-util"] }
tokio-util = "=0.7.19"
tower = { version = "=0.5.3", features = ["util"] }
tower-http = { version = "=0.7.1", features = ["limit", "trace"] }
