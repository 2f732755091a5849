[package]
name = "tabs_army"
version = "0.1.0"
edition = "2021"
publish = false

[dependencies]
rand = "0.7"
wasm-bindgen = "0.2"
web-sys = { version = "0.3", features = ["Window", "Document", "Element", "HtmlElement", "HtmlButtonElement", "HtmlDivElement", "MouseEvent", "Event", "EventTarget", "Node", "Text", "console"] }
