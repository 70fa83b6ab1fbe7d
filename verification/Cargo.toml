[package]
name = "lightfield"
version = "0.1.0"
edition = "2021"
publish = false

[dependencies]
wasm-bindgen = "*"
web-sys = { version = "*", features = ["console", "Window", "Document", "Element", "HtmlElement", "HtmlCanvasElement", "CanvasRenderingContext2d", "ImageData", "Event", "MouseEvent", "EventTarget", "Performance"] }
gloo = "*"
wasm-timer = "*"
console_error_panic_hook = "*"
