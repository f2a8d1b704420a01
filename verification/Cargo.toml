[package]
name = "offline_video"
version = "0.1.0"
edition = "2021"
publish = false

[dependencies]
aes-gcm = "=0.11.1"
bytes = "=1.12.1"
chrono = "=0.4.45"
getrandom = "=0.3.4"
http-body-util = "=0.1.5"
hyper = { version = "=1.12.0", features = ["http1", "server"] }
hyper-util = { version = "=0.1.21", features = ["tokio"] }
keyring = { version = "=3.6.3", features = ["apple-native"] }
log = "=0.4.35"
reqwest = { version = "=0.12.28", default-features = false }
serde = { version = "=1.0.229", features = ["derive"] }
serde_json = "=1.0.154"
tauri = { version = "2", default-features = false }
tokio = { version = "=1.54.1", features = ["macros", "net", "rt", "sync", "time"] }
tokio-stream = "=0.1.19"
zeroize = "=1.9.1"
