[package]
name = "gnss_reader"
version = "0.1.0"
edition = "2021"
publish = false

[dependencies]
byteorder = "1"
prost = "*"
serde = { version = "1", features = ["derive"] }
serde_json = "1"
serialport = { version = "4", default-features = false }
