[package]
name = "nvs_shell"
version = "0.1.0"
edition = "2021"
publish = false

[dependencies]
anyhow = "1"
async-trait = "0.1"
bytemuck = { version = "1", features = ["derive"] }
env_logger = "0.11"
etagere = "0.2"
fontdb = "*"
futures = "0.3"
image = { version = "*", default-features = false, features = ["png"] }
log = "0.4"
lru = "*"
nvim-rs = { version = "*", features = ["use_tokio"] }
rmpv = { version = "1", features = ["with-serde"] }
serde = { version = "1", features = ["derive"] }
swash = "*"
tokio = { version = "1", features = ["full"] }
tokio-util = { version = "0.7", features = ["compat"] }
walkdir = "2"
wgpu = "*"
windows-sys = "*"
winit = "0.30"
