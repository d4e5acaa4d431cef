[package]
name = "proxerver"
version = "0.1.0"
edition = "2021"
publish = false

[dependencies]
base64 = "=0.22.1"
sha2 = "=0.10.9"
bytes = "=1.12.1"
chrono = "=0.4.45"
clap = { version = "=4.6.7", features = ["derive"] }
http-body-util = "=0.1.5"
hyper = { version = "=1.12.0", features = ["http1", "http2", "server", "client"] }
hyper-util = { version = "=0.1.21", features = ["server", "server-auto", "client", "client-legacy", "http1", "http2", "tokio"] }
rand = "=0.8.8"
rlimit = "=0.10.2"
rustls = { version = "=0.23.45", default-features = false, features = ["ring", "logging", "std", "tls12"] }
rustls-pemfile = "2"
serde = { version = "=1.0.229", features = ["derive"] }
tokio = { version = "=1.53.2", features = ["full"] }
tokio-rustls = { version = "=0.26.6", default-features = false, features = ["ring", "logging", "tls12"] }
toml = "=0.8.23"
tracing = "=0.1.44"

[dev-dependencies]
wildmatch = "=2.6.1"
