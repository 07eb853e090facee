[package]
name = "rt_ring"
version = "0.1.0"
edition = "2021"
publish = false

[dev-dependencies]
proptest = "1"
loom = "0.7"
