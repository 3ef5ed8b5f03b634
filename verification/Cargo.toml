[package]
name = "pax_carbon"
version = "0.1.0"
edition = "2021"
publish = false

[dependencies]
ropey = "1.6"
dashmap = "5"
tower-lsp = "0.20"
lsp-types = "0.94"
tokio = { version = "1", features = ["full"] }
serde = { version = "1", features = ["derive"] }
pest = "2"
piet = "*"
piet-web = "*"
kurbo = "*"
wasm-bindgen = "0.2"
web-sys = { version = "0.3", features = ["Window", "Document", "Element", "HtmlCanvasElement", "CanvasRenderingContext2d", "Event", "EventTarget", "console"] }
console_error_panic_hook = "0.1"
