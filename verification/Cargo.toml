[package]
name = "game_loop"
version = "0.1.0"
edition = "2021"
publish = false

[dependencies]
gl = "*"
log = "0.4"
sdl2 = { version = "*", features = ["ttf"] }
simple_logger = "*"
vector3 = "*"
