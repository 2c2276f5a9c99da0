[package]
name = "sprite_loop"
version = "0.1.0"
edition = "2021"
publish = false

[dependencies]
image = "0.24"
anyhow = "1"
dotenv = "0.15"
