[package]
name = "steg"
version = "0.1.0"
edition = "2021"
publish = false

[dependencies]
aes-gcm = "0.10"
sha2 = "0.10"
clap = { version = "4", features = ["derive"] }
image = "0.25"
