[package]
name = "mining_pool"
version = "0.1.0"
edition = "2021"
publish = false

[dependencies]
async-channel = "=1.9.0"
async-recursion = "=1.2.0"
binary_sv2 = "=1.2.1"
codec_sv2 = { version = "=1.0.1", features = ["noise_sv2"] }
error_handling = "=1.0.0"
framing_sv2 = "=1.0.0"
network_helpers = { version = "=1.0.0", features = ["with_tokio"] }
nohash-hasher = "=0.2.0"
noise_sv2 = "~1.0"
roles_logic_sv2 = "=1.0.0"
stratum-common = { version = "=1.0.0", features = ["bitcoin"] }
tokio = { version = "=1.54.1", features = ["full"] }
tracing = "=0.1.44"
