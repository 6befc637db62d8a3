[package]
name = "xeditor"
version = "0.1.0"
edition = "2021"
publish = false

[dependencies]
iced = { version = "=0.14.0", default-features = false, features = ["tiny-skia", "tokio", "highlighter"] }
rfd = "=0.17.2"
tokio = { version = "=1.53.2", features = ["fs"] }
