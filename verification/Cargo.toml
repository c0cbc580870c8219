[package]
name = "tur_rs"
version = "0.1.0"
edition = "2021"
publish = false

[dependencies]
anyhow = "1"
bincode = "1.3"
chrono = { version = "0.4", default-features = false, features = ["clock"] }
clap = { version = "4", features = ["derive"] }
dash-mpd = { version = "=0.18.4", default-features = false }
futures-util = "0.3"
h3 = "*"
h3-quinn = "*"
http = "=1.5.0"
http-body-util = "0.1"
hyper = { version = "1", features = ["client", "http1", "http2"] }
hyper-rustls = { version = "0.27", default-features = false, features = ["http1", "http2", "ring", "webpki-roots"] }
hyper-util = { version = "0.1", features = ["client", "client-legacy", "http1", "http2", "tokio"] }
m3u8-rs = "=6.0.1"
quinn = { version = "0.11", default-features = false, features = ["runtime-tokio", "rustls-ring"] }
ratatui = { version = "0.29", default-features = false, features = ["crossterm"] }
regex = "=1.13.1"
rustix = { version = "1", features = ["fs", "pipe"] }
rustls = { version = "0.23", default-features = false, features = ["ring", "std", "tls12"] }
serde = { version = "1", features = ["derive", "rc"] }
serde_json = "=1.0.154"
socket2 = { version = "0.6", features = ["all"] }
sysinfo = { version = "0.37", default-features = false, features = ["system"] }
tokio = { version = "1", features = ["full"] }
tokio-tungstenite = "0.28"
tokio-uring = "0.5"
tower-service = "0.3"
url = "=2.5.8"
uuid = { version = "1", features = ["v4"] }
webpki-roots = "1"
