[package]
name = "deepfilter-ort"
version = "0.1.0"
edition = "2021"
publish = false

[dependencies]
deep_filter = { version = "=0.2.5", default-features = false }
jni = "=0.20.0"
ndarray = "0.15"
