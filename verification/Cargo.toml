[package]
name = "request_gate"
version = "0.1.0"
edition = "2021"
publish = false

[dependencies]
actix-web = { version = "=4.15.0", default-features = false, features = ["cookies"] }
chrono = { version = "=0.4.45", default-features = false, features = ["clock"] }
futures-util = { version = "=0.3.34", default-features = false, features = ["std"] }
log = "=0.4.34"
serde = { version = "=1.0.229", features = ["derive"] }
serde_json = "=1.0.151"
tokio = { version = "=1.53.2", default-features = false, features = ["sync"] }
uuid = { version = "=1.27.0", features = ["v4"] }
