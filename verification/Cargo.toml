[package]
name = "paintboard"
version = "0.1.0"
edition = "2021"
publish = false

[dependencies]
colors-transform = "*"
regex = "*"
wasm-bindgen = "*"
js-sys = "*"
console_error_panic_hook = "*"

[dependencies.web-sys]
version = "*"
features = [
    "Window",
    "Document",
    "Element",
    "Node",
    "EventTarget",
    "Event",
    "HtmlElement",
    "HtmlCanvasElement",
    "HtmlDivElement",
    "CanvasRenderingContext2d",
    "ImageData",
    "MouseEvent",
    "KeyboardEvent",
]
