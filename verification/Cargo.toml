[package]
name = "tickflow"
version = "0.1.0"
edition = "2021"
publish = false

[dependencies]
bytestream = "*"
regex = "*"
serde = { version = "*", features = ["derive"] }
serde_yaml = "*"
thiserror = "*"
