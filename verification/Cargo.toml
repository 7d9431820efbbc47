[package]
name = "swaybind"
version = "0.1.0"
edition = "2021"
publish = false

[dependencies]
serde_json = "=1.0.154"
iced = { version = "=0.14.0", default-features = false, features = ["tiny-skia", "x11", "thread-pool"] }
