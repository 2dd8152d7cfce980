[package]
name = "aios_core"
version = "0.1.0"
edition = "2021"
publish = false

[dependencies]
anyhow = "=1.0.104"
bincode = "=1.3.3"
dashmap = "=6.2.1"
glam = "=0.34.2"
rstar = { version = "=0.14.0", features = ["serde"] }
serde = { version = "=1.0.229", features = ["derive"] }
smallvec = "1"
tokio = { version = "=1.54.1", features = ["rt", "macros"] }
