[package]
name = "remarkable_oxide"
version = "0.1.0"
edition = "2021"
publish = false

[dependencies]
parity-scale-codec = "=3.7.5"
serde = { version = "=1.0.229", features = ["derive"] }
impl-serde = "=0.5.0"
async-std = "=1.13.2"
futures = "=0.3.34"
anyhow = "=1.0.104"
log = "=0.4.35"
env_logger = "=0.11.11"
dotenv = "=0.15.0"
jsonrpsee = { version = "=0.26.1", features = ["ws-client"] }
sdl2 = "=0.38.0"
tokio = { version = "=1.54.1", features = ["rt-multi-thread"] }
