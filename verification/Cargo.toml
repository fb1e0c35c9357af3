[package]
name = "whatsapp_dispatch"
version = "0.1.0"
edition = "2021"
publish = false

[dependencies]
core-graphics = "0.25"
serde = { version = "=1.0.229", features = ["derive"] }
tauri = { version = "2", default-features = false }
tokio = { version = "=1.54.1", features = ["time"] }
urlencoding = "=2.1.3"
uuid = { version = "=1.29.0", features = ["v4"] }
winapi = { version = "0.3", features = ["winuser"] }
