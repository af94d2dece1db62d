[package]
name = "waybar_sysinfo"
version = "0.1.0"
edition = "2021"
publish = false

[dependencies]
humansize = "2"
regex = "1"
serde = { version = "1", features = ["derive"] }
serde-inline-default = "*"
smol = "2"
sysinfo = "*"
waybar-cffi = "*"
