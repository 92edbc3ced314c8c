[package]
name = "chip8_core"
version = "0.1.0"
edition = "2021"
publish = false

[dependencies]
rand = "=0.10.3"
sdl2 = "=0.38.0"
rodio = { version = "=0.22.2", default-features = false, features = ["playback"] }
