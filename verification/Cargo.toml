[package]
name = "sharun"
version = "0.1.0"
edition = "2021"
publish = false

[dependencies]
goblin = "*"
flate2 = "*"
walkdir = "*"
nix = { version = "*", features = ["fs"] }
dotenv = "*"
userland-execve = "*"
