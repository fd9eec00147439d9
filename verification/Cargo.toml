[package]
name = "confroom_server"
version = "0.1.0"
edition = "2021"
publish = false

[dependencies]
uuid = { version = "=1.27.0", features = ["v4"] }
serde = { version = "=1.0.229", features = ["derive"] }
serde_json = "=1.0.151"
tokio = { version = "=1.53.2", features = ["full"] }
warp = { version = "0.3", features = ["tls"] }
mediasoup = "=0.29.0"
futures-util = "0.3"
parking_lot = "=0.12.5"
event-listener-primitives = "=2.0.2"
clap = { version = "=4.6.7", features = ["derive"] }
env_logger = "0.11"
num_cpus = "=1.17.0"
log = "0.4"
lazy_static = "=1.5.1"
