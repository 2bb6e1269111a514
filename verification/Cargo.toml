[package]
name = "hypersheet"
version = "0.1.0"
edition = "2021"
publish = false

[dependencies]
wasm-bindgen = "*"
js-sys = "*"
serde = { version = "*", features = ["derive"] }
web-sys = { version = "*", features = [
    "console",
    "Window",
    "Document",
    "Element",
    "EventTarget",
    "Node",
    "HtmlElement",
    "HtmlCanvasElement",
    "HtmlInputElement",
    "CanvasRenderingContext2d",
    "MouseEvent",
    "KeyboardEvent",
    "Event",
    "CustomEvent",
    "CustomEventInit",
    "CssStyleDeclaration",
    "DomRect",
    "DomTokenList",
    "Selection",
] }
