[package]
name = "pixelflux"
version = "0.1.0"
edition = "2021"
publish = false

[dependencies]
yuv = { version = "=0.8.20", features = ["fast_mode"] }
serde_json = "=1.0.154"
libc = "=0.2.191"
libloading = "=0.8.9"
crossbeam-channel = "=0.5.17"
image = { version = "=0.25.10", default-features = false }
pyo3 = { version = "=0.28.3", features = ["abi3-py39"] }
