[package]
name = "fundverse"
version = "0.1.0"
edition = "2021"
publish = false

[dependencies]
bcrypt = "*"
chrono = "0.4"
jsonwebtoken = "9"
rand = "0.8"
serde_json = "1"
urlencoding = "2"
