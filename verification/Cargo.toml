[package]
name = "bvh_gav"
version = "0.1.0"
edition = "2021"
publish = false

[dependencies]
anyhow = "1"
bevy_math = { version = "0.16", default-features = false, features = ["std"] }
bvh_anim = "0.4"
itertools = "*"
ndarray = "0.16"
ndarray-npy = { version = "0.9", default-features = false }
thiserror = "2"
