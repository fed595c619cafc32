[package]
name = "grafana-plugin-sdk-rs"
version = "0.4.0"
edition = "2021"
publish = false

[dependencies]
base64 = "0.22"
rcgen = "0.13"
rustls-pki-types = { version = "1", features = ["std"] }
reqwest = { version = "0.12", default-features = false, features = ["rustls-tls"] }
rustls = "0.23"
tokio-rustls = "0.26"
tokio = { version = "1", features = ["rt-multi-thread", "sync", "time", "net", "macros", "io-util"] }
tonic = "0.13"
prost = "0.13"
http = "1"
http-body-util = "0.1"
axum = "0.8"
tower = { version = "0.5", features = ["util"] }
futures-util = "0.3"
futures-core = "0.3"
async-stream = "0.3"
serde = { version = "1", features = ["derive"] }
serde_json = "1"
thiserror = "2"
tracing = "0.1"
opentelemetry = "*"
tracing-opentelemetry = "*"
