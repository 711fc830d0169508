[package]
name = "openforensic"
version = "0.1.0"
edition = "2021"
publish = false

[dependencies]
md-5 = "=0.10.6"
sha1 = "=0.10.7"
sha2 = "=0.10.9"
hex = "=0.4.3"
chrono = "=0.4.45"
regex = "=1.13.1"
flate2 = "=1.1.10"
zstd = "=0.13.4"
serde = { version = "=1.0.229", features = ["derive"] }
serde_json = "=1.0.154"
thiserror = "=1.0.69"
tokio = { version = "=1.54.1", features = ["rt-multi-thread", "sync", "macros"] }
csv = "=1.4.0"
libc = "=0.2.191"
libloading = "=0.8.9"
sysinfo = "=0.30.13"
rusqlite = { version = "=0.31.0", features = ["bundled"] }
tracing-subscriber = "=0.3.23"
printpdf = "0.7"
reqwest = { version = "0.12", default-features = false, features = ["json", "rustls-tls"] }
