[package]
name = "text_engine"
version = "0.1.0"
edition = "2021"
publish = false

[dependencies]
ropey = { version = "=1.6.1", default-features = false }
memchr = "=2.8.3"
itoa = "=0.4.8"
gl = "=0.14.0"
glfw = { version = "=0.51.0", default-features = false }
freetype-rs = "=0.38.0"
