[package]
name = "ftp_browser"
version = "0.1.0"
edition = "2021"
publish = false

[dependencies]
suppaftp = "*"
chrono = "*"
base64 = "*"
nom-exif = "*"
image = "*"
