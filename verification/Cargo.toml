[package]
name = "swaply_identity"
version = "0.1.0"
edition = "2021"
publish = false

[dependencies]
bincode = "=1.3.3"
bs58 = "=0.4.0"
cdrs = "=2.3.3"
chrono = "=0.4.45"
serde = { version = "=1.0.229", features = ["derive"] }
time = "=0.1.45"
uuid = { version = "=0.8.2", features = ["serde", "v4"] }
