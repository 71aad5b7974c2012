[package]
name = "tauri_plugins"
version = "0.1.0"
edition = "2021"
publish = false

[dependencies]
url = "=2.5.8"
uuid = { version = "=1.29.0", features = ["v4"] }
chrono = "=0.4.45"
serde = { version = "=1.0.229", features = ["derive"] }
serde_json = "=1.0.154"
get_if_addrs = "=0.5.3"
tokio = { version = "=1.54.1", features = ["rt", "net", "time", "io-util", "sync", "macros"] }
thiserror = "=1.0.69"
async-trait = "=0.1.92"
futures-util = "=0.3.34"
native-tls = "0.2"
tokio-native-tls = "0.3"
