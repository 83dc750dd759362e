[package]
name = "record_convert"
version = "0.1.0"
edition = "2021"
publish = false

[dependencies]
csv = "=1.4.0"
serde = { version = "=1.0.229", features = ["derive"] }
serde_json = { version = "=1.0.154", features = ["float_roundtrip", "preserve_order"] }
serde_yaml = "=0.9.34"
toml = { version = "=1.1.8", features = ["preserve_order"] }
thiserror = "=2.0.21"
fake = { version = "=5.1.0", features = ["uuid", "time"] }
figlet-rs = "=0.1.5"
