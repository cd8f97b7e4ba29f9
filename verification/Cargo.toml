[package]
name = "tdawm"
version = "0.1.0"
edition = "2021"
publish = false

[dependencies]
execute = "*"
log = "0.4"
log2 = "*"
serde = { version = "1", features = ["derive"] }
thiserror = "*"
toml = "*"
x11 = { version = "2", features = ["xlib", "xinerama"] }
