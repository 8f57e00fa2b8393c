[package]
name = "thermo_online"
version = "0.1.0"
edition = "2021"
publish = false

[dependencies]
gif = "0.12"
zip = { version = "0.6", default-features = false, features = ["deflate"] }
wasm-bindgen = "0.2"
