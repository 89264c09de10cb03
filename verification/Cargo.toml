[package]
name = "st7789"
version = "0.1.0"
edition = "2021"
publish = false

[dependencies]
display-interface = "*"
embedded-hal = "0.2"
