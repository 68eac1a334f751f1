[package]
name = "desktop_beauty"
version = "0.1.0"
edition = "2021"
publish = false

[dependencies]
rand = "*"
