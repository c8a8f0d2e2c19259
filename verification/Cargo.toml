[package]
name = "bless"
version = "0.1.0"
edition = "2021"
publish = false

[dependencies]
humantime = "2"
serde_json = "1"
log = { version = "0.4", features = ["std"] }
fern = "0.7"
flate2 = "1"
tokio = { version = "1", features = ["full"] }
tokio-util = { version = "0.7", features = ["compat"] }
uuid = { version = "1", features = ["v4"] }
libc = "0.2"
thiserror = "1"
async-trait = "0.1"
mongodb = "2"
