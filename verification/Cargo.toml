[package]
name = "pointer_motion"
version = "0.1.0"
edition = "2021"
publish = false

[dependencies]
async-std = "1"
clap = "2"
colored = "2"
enigo = "0.0.14"
futures = "0.3"
local_ipaddress = "0.1"
public-ip = "0.1"
tokio = { version = "1", features = ["macros", "rt-multi-thread"] }
warp = { version = "0.3", default-features = false, features = ["websocket"] }

[dev-dependencies]
float_extras = "0.1"
