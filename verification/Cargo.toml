[package]
name = "hes_game"
version = "0.1.0"
edition = "2021"
publish = false

[dependencies]
egui = "*"
log = "*"
web-sys = { version = "*", features = ["Window", "Location", "UrlSearchParams"] }
