[package]
name = "pomotasker"
version = "0.1.0"
edition = "2021"
publish = false

[dependencies]
chrono = "0.4"
rusqlite = { version = "*", features = ["bundled"] }
gtk4 = "*"
gdk4 = "*"
pango = "*"
