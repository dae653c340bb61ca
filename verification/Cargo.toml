[package]
name = "asnap"
version = "0.1.0"
edition = "2021"
publish = false

[dependencies]
chrono = "0.4"
dirs = "5"
image = { version = "0.25", default-features = false, features = ["png"] }
arboard = "3"
rdev = "0.5"
