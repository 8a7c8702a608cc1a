[package]
name = "wgpu_rust_renderer"
version = "0.1.0"
edition = "2021"
publish = false

[dependencies]
bytemuck = "1"
gltf = "1"
jpeg-decoder = "0.3"
js-sys = "0.3"
png = "0.17"
uuid = { version = "1", features = ["v4"] }
wasm-bindgen = "0.2"
wasm-bindgen-futures = "0.4"
web-sys = { version = "0.3", features = ["HtmlCanvasElement", "Request", "RequestInit", "RequestMode", "Response", "Window"] }
wgpu = "0.11"
winit = "0.25"
