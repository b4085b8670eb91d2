[package]
name = "slide_blocks"
version = "0.1.0"
edition = "2021"
publish = false

[dependencies]
rand = "=0.9.5"
serde = { version = "1", features = ["derive"] }
bevy = { version = "0.16", default-features = false, features = ["std"] }
