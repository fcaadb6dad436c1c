[package]
name = "img2pixel"
version = "0.1.0"
edition = "2021"
publish = false

[dependencies]
anyhow = "*"
image = "*"
ordered-float = "*"
palette = "*"
rand = "*"
rayon = "*"
serde = { version = "*", features = ["derive"] }
wasm-bindgen = "*"
