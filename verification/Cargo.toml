[package]
name = "samsynk"
version = "0.1.0"
edition = "2021"
publish = false

[dependencies]
tokio = { version = "=1.53.2", features = ["full"] }
tokio-modbus = "=0.17.0"
tokio-serial = "=5.5.0"
warp = { version = "=0.4.3", features = ["server"] }
prometheus = "=0.14.0"
bytes = "=1.12.1"
reqwest = { version = "=0.13.5", default-features = false }
