[package]
name = "neolove"
version = "0.1.0"
edition = "2021"
publish = false

[dependencies]
hound = "3.5"
futures = "0.3"
macroquad = { version = "0.4", features = ["audio"] }
mlua = { version = "0.11", features = ["luau"] }
