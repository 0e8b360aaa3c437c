[package]
name = "iway"
version = "0.1.0"
edition = "2021"
publish = false

[dependencies]
anyhow = "=1.0.104"
arc-swap = "=1.9.3"
async-trait = "=0.1.92"
bytes = "=1.12.1"
dashmap = "=6.2.1"
if-addrs = "=0.13.4"
libc = "=0.2.191"
moka = { version = "=0.12.16", features = ["future"] }
num_cpus = "=1.17.0"
once_cell = "=1.21.4"
parking_lot = "=0.12.5"
quinn = { version = "=0.11.12", default-features = false, features = ["runtime-tokio", "rustls-ring", "log"] }
rustls = { version = "=0.23.46", default-features = false, features = ["ring", "std", "logging", "tls12"] }
rustls-pemfile = "=2.2.0"
serde = { version = "=1.0.229", features = ["derive"] }
sha2 = "=0.10.9"
socket2 = { version = "=0.5.10", features = ["all"] }
subtle = "=2.6.1"
thiserror = "=1.0.69"
tokio = { version = "=1.54.1", features = ["full"] }
tokio-rustls = { version = "=0.26.6", default-features = false, features = ["ring", "logging", "tls12"] }
tokio-util = "=0.7.20"
toml = "=0.8.23"
tracing = "=0.1.44"
tracing-appender = "=0.2.5"
tracing-subscriber = "=0.3.23"
uuid = "=1.29.0"
zeroize = "=1.9.1"
