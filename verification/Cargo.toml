[package]
name = "shell"
version = "0.2.0"
edition = "2021"
publish = false

[dependencies]
errno = "0.3"
lazy_static = "1"
libc = "0.2"
log = "0.4"
nom = "3"
