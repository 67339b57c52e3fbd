[package]
name = "chos_lib"
version = "0.1.0"
edition = "2021"
publish = false

[dependencies]
siphasher = "0.3"
x86_64 = { version = "0.14", default-features = false }
