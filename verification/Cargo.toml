[package]
name = "kvbm"
version = "0.1.0"
edition = "2021"
publish = false

[dependencies]
anyhow = "1"
async-trait = "0.1"
blake3 = { version = "1", features = ["pure"] }
dashmap = "6"
futures-util = "0.3"
once_cell = "1"
parking_lot = "0.12"
serde = { version = "1", features = ["derive"] }
serde_json = "1"
thiserror = "2"
tokio = { version = "1", features = ["sync", "rt", "rt-multi-thread", "macros", "time"] }
tokio-util = "0.7"
uuid = { version = "1", features = ["v4"] }
tmq = "0.5"
nix = { version = "0.26", features = ["fs"] }
