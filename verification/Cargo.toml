[package]
name = "runas"
version = "0.1.0"
edition = "2021"
publish = false

[dependencies]
libc = "0.2"
pwhash = "1"
rpassword = "5"
users = "0.11"
yaml-rust = "0.4"
