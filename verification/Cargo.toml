[package]
name = "yaal"
version = "0.1.0"
edition = "2021"
publish = false

[dependencies]
serde = { version = "*", features = ["derive"] }
serde_json = "*"
toml = "*"
dirs = "*"
libloading = "*"
gtk4 = "*"
gdk4 = "*"
glib = "*"
