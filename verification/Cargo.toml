[package]
name = "hyperlight_js_dap"
version = "0.1.0"
edition = "2021"
publish = false

[dependencies]
anyhow = "1"
crossbeam-channel = "0.5"
hashbrown = "*"
hyperlight-common = "*"
hyperlight-guest-bin = "*"
log = "0.4"
rquickjs = "*"
serde = { version = "1", features = ["derive"] }
serde_json = "1"
thiserror = "*"
