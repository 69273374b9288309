[package]
name = "jackal"
version = "0.1.0"
edition = "2021"
publish = false

[dependencies]
secret-toolkit = { version = "*", default-features = false, features = ["crypto"] }
base64 = "0.13"
