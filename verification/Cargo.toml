[package]
name = "perihelion"
version = "0.1.0"
edition = "2021"
publish = false

[dependencies]
anyhow = "1"
arboard = { version = "3", default-features = false }
dirs = "6"
eframe = { version = "0.30", default-features = false, features = ["glow", "x11"] }
mimalloc = { version = "0.1", default-features = false }
nanoserde = "0.2"
parking_lot = "0.12"
rosc = "0.11"
sherpa-onnx = { version = "1.12", default-features = false }
ureq = { version = "3", default-features = false, features = ["rustls"] }
woff2-patched = "0.4"
