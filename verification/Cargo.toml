[package]
name = "ros_monitor"
version = "0.1.0"
edition = "2021"
publish = false

[dependencies]
async-stream = "0.3"
bitcode = "0.6"
clap = { version = "4", features = ["derive"] }
futures = "0.3"
log = "0.4"
r2r = "*"
serde = { version = "1", features = ["derive"] }
serde_json = "1"
thiserror = "1"
tokio = { version = "1", features = ["io-util", "macros", "process", "rt", "sync"] }
