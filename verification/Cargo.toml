[package]
name = "ajaya"
version = "0.5.0"
edition = "2021"
publish = false

[dependencies]
http = "=1.5.0"
sha1 = "=0.10.7"
base64 = "=0.22.1"
multer = "=3.1.0"
mime = "=0.3.17"
serde_json = "=1.0.154"
uuid = { version = "=1.29.0", features = ["v4"] }
cookie = { version = "=0.18.2", features = ["percent-encode", "signed", "private"] }
serde = { version = "=1.0.229", features = ["derive"] }
serde_urlencoded = "=0.7.1"
bytes = "=1.12.1"
http-body = "=1.1.0"
http-body-util = "=0.1.5"
hyper = { version = "=1.12.0", features = ["server", "http1", "http2"] }
hyper-util = { version = "=0.1.21", features = ["tokio", "server", "server-auto", "http1", "http2"] }
tokio = { version = "=1.54.1", features = ["full"] }
tokio-util = { version = "=0.7.20", features = ["io"] }
futures-util = { version = "=0.3.34", features = ["sink"] }
tower-layer = "=0.3.3"
tower-service = "=0.3.3"
tracing = "=0.1.44"
async-compression = { version = "=0.4.52", features = ["tokio", "gzip", "brotli", "zstd", "deflate"] }
tokio-tungstenite = "=0.24.0"
parking_lot = "=0.12.5"
tempfile = "=3.27.0"
socket2 = { version = "=0.5.10", features = ["all"] }
headers = "=0.4.2"
itoa = "=1.0.18"
