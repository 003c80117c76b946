[package]
name = "bake"
version = "0.1.0"
edition = "2021"
publish = false

[dependencies]
rand = "=0.10.3"
burn = { version = "=0.22.1", default-features = false, features = ["flex", "autodiff"] }
