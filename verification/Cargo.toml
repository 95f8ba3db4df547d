[package]
name = "synaptix_kernels_cuda"
version = "0.1.0"
edition = "2021"
publish = false

[dependencies]
cudarc = { version = "*", default-features = false, features = ["std", "driver", "nvrtc", "f16", "dynamic-loading", "cuda-12080"] }
half = "*"
once_cell = "*"
parking_lot = "*"
