[package]
name = "orbtiama_core"
version = "0.1.0"
edition = "2021"
publish = false

[dependencies]
lyon_path = "1"
