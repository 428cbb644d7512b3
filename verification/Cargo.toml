[package]
name = "arcade_core"
version = "0.1.0"
edition = "2021"
publish = false

[dependencies]
crossbeam = "=0.7.3"
amethyst = { version = "0.13", default-features = false, features = ["animation", "renderer", "json", "empty"] }
