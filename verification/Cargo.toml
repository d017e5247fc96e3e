[package]
name = "rustcraft"
version = "0.1.0"
edition = "2021"
publish = false

[dependencies]
aes = "0.8"
cfb8 = "0.8"
cipher = "0.4"
sha1 = "0.10"
rsa = "0.9"
rand = "0.8"
uuid = { version = "1", features = ["v4"] }
reqwest = { version = "0.12", default-features = false, features = ["blocking"] }
serde = { version = "1", features = ["derive"] }
serde_json = "1"
toml = "0.8"
chrono = "0.4"
colored = "2"
crossbeam-channel = "0.5"
ctrlc = "3"
once_cell = "1"
