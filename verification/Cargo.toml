[package]
name = "arcademic-rust"
version = "0.1.0"
edition = "2021"
publish = false

[dependencies]
url = "2"
html-escape = "0.2"
serde = { version = "1", features = ["derive"] }
serde_json = "1"
toml = "*"
thiserror = "2"
lol_html = "*"
dioxus = { version = "0.7", features = ["router"] }
dioxus-free-icons = { version = "*", features = ["lucide"] }
wasm-bindgen = "0.2"
js-sys = "0.3"
web-sys = { version = "0.3", features = ["Window", "Document", "Element", "HtmlElement", "MediaQueryList", "Navigator", "Event", "EventTarget", "PointerEvent", "AddEventListenerOptions", "IntersectionObserver", "IntersectionObserverEntry", "IntersectionObserverInit", "DomTokenList", "NodeList", "Node", "CssStyleDeclaration", "ScrollToOptions", "ScrollBehavior"] }
gloo-net = { version = "*", features = ["http", "json"] }
gloo-timers = { version = "*", features = ["futures"] }
