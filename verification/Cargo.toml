[package]
name = "arena-builder"
version = "0.1.0"
edition = "2021"
publish = false

[dependencies]
cgmath = "=0.18.0"
clap = { version = "=4.6.7", features = ["derive"] }
gl = "=0.14.0"
log = "=0.4.34"
rgb = "=0.8.53"
sdl2 = "=0.35.2"
simple_logger = "=4.3.3"
zip = { version = "=0.6.6", default-features = false, features = ["deflate"] }

[dev-dependencies]
regex = "=1.13.1"
