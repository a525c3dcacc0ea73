[package]
name = "fluent_web"
version = "0.1.0"
edition = "2021"
publish = false

[dependencies]
syn = { version = "=2.0.119", features = ["full", "extra-traits"] }
proc-macro2 = { version = "=1.0.107", features = ["span-locations"] }
quote = "=1.0.47"
prettyplease = "=0.2.37"
kuchikiki = "=0.8.2"
html5ever = "=0.26.0"
markup5ever = "=0.11.0"
lightningcss = { version = "=1.0.0-alpha.72", features = ["visitor"] }
miette = "=7.6.0"
thiserror = "=2.0.21"
anyhow = "=1.0.104"
uuid = { version = "=1.29.1", features = ["v4"] }
base64 = "=0.23.1"
bincode = "=1.3.3"
serde = { version = "=1.0.229", features = ["derive"] }
derivative = "=2.2.0"
wasm-bindgen = "=0.2.130"
js-sys = "=0.3.107"
web-sys = { version = "=0.3.107", features = ["Window", "Document", "Element", "HtmlElement", "Node", "NodeList", "MutationObserver", "MutationObserverInit", "MutationRecord", "CustomEvent", "CustomEventInit", "console", "Event", "EventTarget", "DomTokenList", "CssStyleDeclaration", "HtmlCollection"] }
console_error_panic_hook = "=0.1.7"
paste = "=1.0.15"
