[package]
name = "alpha_tube"
version = "0.1.0"
edition = "2021"
publish = false

[dependencies]
base64 = "0.22"
urlencoding = "2"
serde = { version = "1", features = ["derive"] }
serde_json = "1"
tokio = { version = "1", features = ["full"] }
chrono = "0.4"
warp = "0.3"
reqwest = { version = "0.12", default-features = false, features = ["stream", "rustls-tls"] }
futures-util = "0.3"

[dev-dependencies]
regex = "1"
