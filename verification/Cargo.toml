[package]
name = "purge_warden"
version = "0.1.0"
edition = "2021"
publish = false

[dependencies]
hickory-proto = "*"
hickory-net = "*"
hickory-server = "*"
moka = { version = "*", features = ["sync", "future"] }
tokio = { version = "*", features = ["rt", "rt-multi-thread", "sync", "time"] }
compact_str = "*"
ahash = "*"
arc-swap = "*"
async-trait = "*"
thiserror = "*"
anyhow = "*"
libc = "*"
toml = "*"
tracing = "*"
time = "*"
