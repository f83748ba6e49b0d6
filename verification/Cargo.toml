[package]
name = "doh_gateway"
version = "0.1.0"
edition = "2021"
publish = false

[dependencies]
trust-dns-proto = { version = "=0.23.2", features = ["dnssec"] }
rand = "=0.8.8"
reqwest = "=0.11.27"
tokio = { version = "=1.54.1", features = ["net", "rt-multi-thread", "macros", "time", "sync"] }
serde = { version = "=1.0.229", features = ["derive"] }
toml = "=0.8.23"
log = "=0.4.34"
env_logger = "=0.10.2"
