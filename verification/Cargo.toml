[package]
name = "tunnelx"
version = "0.1.0"
edition = "2021"
publish = false

[dependencies]
dashmap = "6"
sha2 = "0.10"
hmac = "0.12"
hex = "0.4"
rand = "0.9"
uuid = { version = "1", features = ["v4"] }
axum = { version = "0.8", features = ["ws"] }
axum-server = { version = "0.7", default-features = false, features = ["tls-rustls-no-provider"] }
rustls = { version = "0.23", default-features = false, features = ["ring", "std"] }
bincode = "1"
serde = { version = "1", features = ["derive"] }
serde_json = "1"
thiserror = "2"
tokio = { version = "1", features = ["full"] }
tokio-stream = "0.1"
tokio-tungstenite = { version = "0.26", features = ["rustls-tls-webpki-roots"] }
futures-util = { version = "0.3", features = ["sink"] }
hyper = { version = "1", features = ["client", "http1"] }
hyper-util = { version = "0.1", features = ["client-legacy", "http1", "tokio"] }
http-body-util = "0.1"
clap = { version = "4", features = ["derive", "env"] }
clap_complete = "4"
crossterm = "0.28"
dialoguer = "0.11"
arboard = { version = "3", default-features = false }
qrcode = { version = "0.14", default-features = false }
chrono = "0.4"
dirs = "6"
tracing = "0.1"
tracing-subscriber = { version = "0.3", features = ["env-filter"] }
