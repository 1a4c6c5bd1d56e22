[package]
name = "table-rs"
version = "0.1.0"
edition = "2021"
publish = false

[dependencies]
yew = { version = "=0.21.0", features = ["csr"] }
dioxus = { version = "=0.6.3", default-features = false, features = ["macro", "html", "signals", "hooks"] }
web-sys = { version = "=0.3.107", features = ["HtmlInputElement", "HtmlSelectElement", "KeyboardEvent", "InputEvent", "Event"] }
gloo-timers = "=0.3.0"
yew-bootstrap = "=0.13.1"
yew_icons = { version = "=0.8.0", features = ["BootstrapFilter"] }
