[package]
name = "nexus_linux"
version = "0.1.0"
edition = "2021"
publish = false

[dependencies]
enigo = { version = "0.2", default-features = false, features = ["x11rb"] }
once_cell = "1"
serde_json = "1"
urlencoding = "2"
x11rb = "0.13"
