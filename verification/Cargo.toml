[package]
name = "meshtnc"
version = "0.1.0"
edition = "2021"
publish = false

[dependencies]
hex = "*"
MeshCore = "*"
atomic_enum = "*"
clap = { version = "*", features = ["derive"] }
color-eyre = "*"
futures = "*"
lazy_static = "*"
log = "*"
pcap-file = "*"
pretty_env_logger = "*"
r-extcap = "*"
tokio = { version = "*", features = ["full"] }
tokio-serial = "*"
tokio-util = { version = "*", features = ["codec"] }
toml = "*"
