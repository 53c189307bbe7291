[package]
name = "iso8583_rs"
version = "0.1.0"
edition = "2021"
publish = false

[dependencies]
block-modes = "=0.6.1"
byteorder = "=1.5.0"
des = "=0.5.0"
encoding8 = "=0.3.2"
generic-array = "=0.14.9"
hex = "=0.4.3"
hex-literal = "=1.1.0"
hexdump = "=0.1.3"
lazy_static = "=1.5.1"
log = "=0.4.34"
rand = "=0.7.3"
serde = { version = "=1.0.229", features = ["derive"] }
serde_yaml = "=0.8.26"
simplelog = "=0.12.2"
