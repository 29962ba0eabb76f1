[package]
name = "pahkat_core"
version = "0.1.0"
edition = "2021"
publish = false

[dependencies]
directories = "*"
whoami = "*"
url = "*"
chrono = "*"
serde = { version = "*", features = ["derive"] }
serde_json = "*"
