[package]
name = "vino_runtime"
version = "0.1.0"
edition = "2021"
publish = false

[dependencies]
ring = "*"
data-encoding = "*"
rmp-serde = "*"
serde = { version = "*", features = ["derive"] }
uuid = { version = "*", features = ["v4"] }
nkeys = "*"
wascap = "*"
clap = { version = "*", features = ["derive"] }
redis = "*"
