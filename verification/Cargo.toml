[package]
name = "jwt_crack"
version = "0.1.0"
edition = "2021"
publish = false

[dependencies]
clap = { version = "4", features = ["derive"] }
hmac = "0.12"
jwt = "0.16"
rayon = "1"
sha2 = "0.10"
