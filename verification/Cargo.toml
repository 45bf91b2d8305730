[package]
name = "rpc_cache"
version = "0.1.0"
edition = "2021"
publish = false

[dependencies]
actix = "=0.10.0"
actix-web = "=3.3.3"
awc = "=2.0.3"
base64 = "=0.13.1"
bs58 = "=0.4.0"
bytes = "=0.5.6"
dashmap = "=4.0.2"
lru = "=0.6.6"
once_cell = "=1.21.4"
prometheus = { version = "=0.11.0", default-features = false }
serde = { version = "=1.0.229", features = ["derive"] }
serde_json = { version = "=1.0.154", features = ["preserve_order", "raw_value"] }
smallvec = { version = "=1.16.4", features = ["serde"] }
thiserror = "=1.0.69"
tokio = { version = "=0.2.25", features = ["macros", "sync", "time"] }
tracing = "=0.1.44"
zstd = "=0.6.1"
