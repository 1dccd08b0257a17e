[package]
name = "fast-down"
version = "0.1.0"
edition = "2021"
publish = false

[dependencies]
url = "=2.5.8"
dashmap = "=6.2.1"
reqwest = { version = "=0.12.28", default-features = false, features = ["stream", "rustls-tls", "socks"] }
tokio = { version = "=1.54.1", features = ["full"] }
clap = { version = "=4.6.7", features = ["derive"] }
serde = { version = "=1.0.229", features = ["derive"] }
serde_yaml = "=0.9.34"
serde_json = "=1.0.154"
bitcode = "=0.6.9"
rkyv = "0.8"
rusqlite = { version = "=0.41.0", features = ["bundled"] }
parking_lot = "=0.12.5"
soft-canonicalize = "=0.5.6"
fs4 = "=1.1.0"
dirs = "=7.0.0"
zip = { version = "=9.1.0", default-features = false, features = ["deflate"] }
crossterm = "=0.29.0"
color-eyre = "=0.6.5"
config = { version = "*", default-features = false, features = ["toml"] }
