[package]
name = "bezier_lines"
version = "0.1.0"
edition = "2021"
publish = false

[dependencies]
factorial = "*"
image = { version = "0.23", default-features = false, features = ["png"] }
imageproc = "0.22"
rand = "0.7"
