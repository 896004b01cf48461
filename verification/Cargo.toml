[package]
name = "k1-musebook"
version = "0.1.0"
edition = "2021"
publish = false

[dependencies]
crc32fast = "=1.5.4"
rand = "=0.10.3"
heapless = "=0.9.3"
clap = { version = "=4.6.7", features = ["derive"] }
color-eyre = "=0.6.5"
const_format = "=0.2.37"
tokio = { version = "=1.54.1", features = ["full"] }
nusb = "=0.2.9"
postcard = "=1.1.3"
postcard-rpc = { version = "=0.12.1", features = ["use-std"] }
postcard-schema = { version = "=0.2.5", features = ["derive"] }
serde = { version = "=1.0.229", features = ["derive"] }
thiserror = "=2.0.21"
