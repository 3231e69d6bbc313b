[package]
name = "raincloud"
version = "0.1.0"
edition = "2021"
publish = false

[dependencies]
zip = { version = "*", default-features = false, features = ["deflate"] }
chrono = { version = "*", default-features = false, features = ["clock", "std"] }
ftp = "*"
serde = { version = "*", features = ["derive"] }
serde_json = "*"
home = "*"
pathdiff = "*"
