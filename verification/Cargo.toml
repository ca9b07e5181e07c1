[package]
name = "colony_core"
version = "0.1.0"
edition = "2021"
publish = false

[dependencies]
screeps-game-api = "*"
log = "*"
js-sys = "*"
wasm-bindgen = "*"
