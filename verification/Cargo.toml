[package]
name = "church_presenter"
version = "0.1.0"
edition = "2021"
publish = false

[dependencies]
gtk4 = "*"
rusqlite = { version = "*", features = ["bundled"] }
ndi = "*"
log = "*"
simplelog = "*"
