[package]
name = "cnb_shim"
version = "0.1.0"
edition = "2021"
publish = false

[dependencies]
flate2 = "=1.1.10"
tar = "=0.4.46"
uuid = { version = "=1.27.0", features = ["v4"] }
serde = { version = "=1.0.229", features = ["derive"] }
warp = { version = "=0.4.3", features = ["server"] }
tokio = { version = "=1.53.2", features = ["macros", "rt-multi-thread"] }
tokio-stream = "=0.1.19"
reqwest = { version = "=0.13.5", default-features = false, features = ["stream"] }
http = "=1.5.0"
log = "=0.4.34"
pretty_env_logger = "=0.5.0"
tempfile = "=3.27.0"

[dev-dependencies]
toml = "=1.1.7"
