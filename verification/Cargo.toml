[package]
name = "pixelping"
version = "0.1.0"
edition = "2021"
publish = false

[dependencies]
lodepng = "*"
futures = "0.1"
tokio-core = "0.1"
tokio-ping = "*"
