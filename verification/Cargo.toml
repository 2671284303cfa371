[package]
name = "famiibo"
version = "0.1.0"
edition = "2021"
publish = false

[dependencies]
urlencoding = "=2.1.3"
serde = { version = "=1.0.229", features = ["derive"] }
tokio = { version = "=1.54.1", features = ["macros", "rt-multi-thread", "process", "io-util", "fs", "time", "sync"] }
futures = "=0.3.34"
warp = { version = "=0.3.7", default-features = false }
tera = { version = "=1.20.1", default-features = false }
log = "=0.4.35"
pretty_env_logger = "=0.5.0"
thiserror = "=1.0.69"
async-stream = "=0.3.6"
