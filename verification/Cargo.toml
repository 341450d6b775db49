[package]
name = "ratzilla"
version = "0.1.0"
edition = "2021"
publish = false

[dependencies]
ratatui = { version = "=0.29.0", default-features = false, features = ["underline-color"] }
web-sys = { version = "=0.3.77", features = ["Window", "Document", "Element", "HtmlElement", "HtmlCanvasElement", "KeyboardEvent", "MouseEvent", "WheelEvent", "Event", "EventTarget", "Navigator", "Screen", "Performance", "CanvasRenderingContext2d", "DomRect", "console", "Node", "Location", "HtmlBodyElement", "TextMetrics"] }
wasm-bindgen = "=0.2.100"
js-sys = "=0.3.77"
thiserror = "=2.0.21"
compact_str = "=0.8.2"
log = "=0.4.35"
bitflags = "=2.13.2"
beamterm-renderer = "=0.6.0"
