[package]
name = "iris_core"
version = "0.1.0"
edition = "2021"
publish = false

[dependencies]
image = { version = "=0.24.9", default-features = false, features = ["jpeg"] }
lz4_flex = "=0.11.6"
base64 = "=0.22.1"
bincode = "=1.3.3"
serde = { version = "=1.0.229", features = ["derive"] }
serde_json = "=1.0.154"
tokio = { version = "=1.54.1", features = ["full"] }
anyhow = "=1.0.104"
log = "=0.4.35"
once_cell = "=1.21.4"
socket2 = { version = "=0.5.10", features = ["all"] }
mdns-sd = "=0.11.5"
if-addrs = "=0.13.4"
hostname = "=0.4.2"
rand = "=0.8.8"
uuid = { version = "=1.29.0", features = ["v4"] }
openh264 = "=0.6.6"
