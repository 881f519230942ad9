[package]
name = "monte_hall_rust"
version = "0.1.0"
edition = "2021"
publish = false

[dependencies]
rand = "0.8"
wasm-bindgen = "0.2"
dioxus = { version = "0.6", features = ["web"] }
gloo-timers = { version = "0.3", features = ["futures"] }
web-time = "1"
