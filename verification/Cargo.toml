[package]
name = "rccn_usr"
version = "0.1.0"
edition = "2021"
publish = false

[dependencies]
satrs = "=0.2.1"
crossbeam-channel = "=0.5.17"
serde = { version = "=1.0.229", features = ["derive"] }
serde_yaml = "=0.9.34"
thiserror = "=2.0.21"
anyhow = "=1.0.104"
tokio = { version = "=1.54.1", features = ["rt-multi-thread", "net", "macros"] }
futures = "=0.3.34"
zenoh = { version = "=1.10.1", default-features = false }
r2r = "*"
