[package]
name = "life_grid"
version = "0.1.0"
edition = "2021"
publish = false

[dependencies]
image = { version = "*", default-features = false }
js-sys = "*"
wasm-bindgen = "*"
web-sys = { version = "*", features = ["console"] }
