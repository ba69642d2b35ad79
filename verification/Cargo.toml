[package]
name = "tauri-plugin-axum"
version = "0.1.0"
edition = "2021"
publish = false

[dependencies]
axum = "0.8"
futures-util = "0.3"
http-body-util = "0.1"
serde = { version = "1", features = ["derive"] }
serde_json = "1"
tauri = { version = "2", default-features = false }
thiserror = "2"
tokio = { version = "1", features = ["sync", "macros"] }
tower = { version = "0.5", features = ["util"] }
tower-http = { version = "0.6", features = ["catch-panic", "cors"] }
