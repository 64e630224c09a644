[package]
name = "hostmon"
version = "0.1.0"
edition = "2021"
publish = false

[dependencies]
config-file = { version = "*", features = ["toml"] }
dotenv = "*"
kafka = { version = "*", default-features = false }
lazy_static = "*"
libc = "*"
netlink-sys = "*"
pcap = "*"
redis = { version = "*", default-features = false }
serde = { version = "1", features = ["derive"] }
serde_json = "1"
tokio = { version = "1", features = ["rt-multi-thread", "macros", "time"] }
toml = "*"
