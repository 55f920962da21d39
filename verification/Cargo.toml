[package]
name = "around"
version = "0.1.0"
edition = "2021"
publish = false

[dependencies]
base64 = "0.22"
kdl = "6"
serde = { version = "1", features = ["derive"] }
serde_json = "1"
tokio = { version = "1", features = ["full"] }
tokio-util = "0.7"
clap = { version = "4", features = ["derive"] }
tracing = "0.1"
tracing-subscriber = { version = "0.3", features = ["env-filter"] }
ctrlc = "3"
cpal = "0.15"
ringbuf = "0.4"
crossbeam = "0.8"
parking_lot = "0.12"
libloading = "0.8"
