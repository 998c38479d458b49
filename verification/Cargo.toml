[package]
name = "ql_lab"
version = "0.1.0"
edition = "2021"
publish = false

[dependencies]
hex = "=0.4.3"
url = "=2.5.8"
sha2 = "=0.11.1"
qrcode = { version = "=0.14.1", default-features = false }
bytes = "1"
dashmap = "=6.2.1"
rxing = { version = "=0.8.6", default-features = false, features = ["encoding_rs"] }
uuid = "1"
tokio = { version = "1", features = ["full"] }
serde = { version = "1", features = ["derive"] }
figment = { version = "0.10", features = ["env"] }
anyhow = "1"
tracing = "0.1"
tracing-subscriber = "0.3"
socket2 = { version = "*", features = ["all"] }
futures-lite = "2"
async-channel = "2"
rustix = { version = "1", features = ["event"] }
signal-hook = "*"
fontdb = "*"
