[package]
name = "exporter-proxy"
version = "0.1.0"
edition = "2021"
publish = false

[dependencies]
anyhow = "1"
capnp = "0.14"
capnp-futures = "0.14"
clap = "3"
libc = "0.2"
nix = "0.24"
parking_lot = "0.12"
prettytable-rs = { version = "0.10", default-features = false }
reqwest = { version = "0.11", default-features = false, features = ["rustls-tls"] }
serde = { version = "1", features = ["derive"] }
serde_json = "1"
time = "0.3"
tokio = { version = "1", features = ["full"] }
tokio-util = { version = "0.7", features = ["compat"] }
toml = "0.5"
tracing = "0.1"
tracing-subscriber = "0.3"
url = { version = "2", features = ["serde"] }
users = "0.11"
warp = { version = "0.3", default-features = false }
