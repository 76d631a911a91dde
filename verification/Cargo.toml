[package]
name = "lxc"
version = "0.1.0"
edition = "2021"
publish = false

[dependencies]
libc = "=0.2.191"
lxc-sys = "=0.5.0"
