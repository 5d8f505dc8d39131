[package]
name = "learn_vk"
version = "0.1.0"
edition = "2021"
publish = false

[dependencies]
nalgebra-glm = "0.19"
vmm = "0.2"
vulkanalia = { version = "0.22", features = ["libloading", "window"] }
winit = "0.28"
