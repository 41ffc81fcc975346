[package]
name = "gfa_views"
version = "0.1.0"
edition = "2021"
publish = false

[dependencies]
gfa = "*"
bstr = "0.2"
serde = { version = "*", features = ["derive"] }
serde_json = "*"
wasm-bindgen = "*"
js-sys = "*"
wasm-bindgen-futures = "*"
web-sys = { version = "*", features = ["Window", "Request", "RequestInit", "RequestMode", "Response", "Headers", "console"] }
