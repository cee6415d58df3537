[package]
name = "ironvein_client"
version = "0.1.0"
edition = "2021"
publish = false

[dependencies]
chrono = "*"
wasm-bindgen = "*"
js-sys = "*"
web-sys = { version = "*", features = ["Window", "Document", "Element", "Node", "HtmlCanvasElement", "CanvasRenderingContext2d", "WebSocket", "MessageEvent", "ErrorEvent", "CloseEvent", "Event", "MouseEvent", "DomRect", "Location"] }

[dev-dependencies]
serde_json = "*"
