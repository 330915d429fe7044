[package]
name = "shadow"
version = "0.1.0"
edition = "2021"
publish = false

[dependencies]
shlex = "=2.0.1"
local-encoding = "=0.2.0"
serde = { version = "=1.0.229", features = ["derive"] }
serde_json = "=1.0.151"
tokio = { version = "=1.53.2", features = ["full"] }
remoc = { version = "=0.20.4", features = ["full"] }
warp = { version = "=0.4.3", features = ["server"] }
rustls = { version = "=0.23.45", default-features = false, features = ["ring", "std", "tls12", "logging"] }
tokio-rustls = { version = "=0.26.6", default-features = false, features = ["ring", "tls12", "logging"] }
rustls-pemfile = "=2.2.0"
rustls-pki-types = "=1.15.1"
futures = "=0.3.34"
anyhow = "=1.0.104"
thiserror = "=2.0.21"
clap = { version = "=4.6.7", features = ["derive"] }
log = "=0.4.34"
bytes = "=1.12.1"
tokio-util = { version = "=0.7.19", features = ["io"] }
