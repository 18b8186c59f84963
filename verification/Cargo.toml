[package]
name = "essence_math"
version = "0.1.0"
edition = "2021"
publish = false

[dependencies]
anyhow = "1"
yew = { version = "0.21", features = ["csr"] }
web-sys = { version = "0.3", features = ["console", "Event", "HtmlInputElement", "HtmlTextAreaElement", "InputEvent"] }
