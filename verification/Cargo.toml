[package]
name = "masonry"
version = "0.1.0"
edition = "2021"
publish = false

[dependencies]
parley = "0.1"
vello = { version = "0.2", default-features = false }
accesskit = "0.16"
unicode-segmentation = "1.11"
wasm-bindgen = "0.2"
web-sys = { version = "0.3", features = ["Text", "CharacterData", "Node", "EventTarget"] }
