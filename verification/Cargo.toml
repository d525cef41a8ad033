[package]
name = "kiview"
version = "0.1.0"
edition = "2021"
publish = false

[dependencies]
path-slash = "*"
url = "2"
fs_extra = "1"
serde = { version = "1", features = ["derive"] }
serde_json = "1"
nvim-rs = { version = "*", features = ["use_tokio"] }
tokio = { version = "1", features = ["full"] }
rmpv = "1"
async-trait = "0.1"
log = "0.4"
lazy_static = "1"
