[package]
name = "sixtyfps_corelib"
version = "0.1.0"
edition = "2021"
publish = false

[dependencies]
euclid = "0.22"
unicode-segmentation = "1.8"
weak-table = "0.3"
instant = "0.1"
once_cell = "1.5"
pin-weak = "1"
glutin = "0.29"
winit = "0.27"
cocoa = "0.24"
wasm-bindgen = "0.2"
web-sys = { version = "0.3", features = ["HtmlCanvasElement", "Window", "Document", "Element"] }
