[package]
name = "redstone_fpga"
version = "0.1.0"
edition = "2021"
publish = false

[dependencies]
hematite-nbt = "0.5"
petgraph = { version = "=0.6.5", default-features = false, features = ["stable_graph"] }
serde = { version = "=1.0.229", features = ["derive"] }
serde_json = "=1.0.154"
serialport = { version = "=4.10.1", default-features = false }
tracing = "=0.1.44"
