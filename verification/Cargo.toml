[package]
name = "yuki"
version = "0.1.0"
edition = "2021"
publish = false

[dependencies]
serde = { version = "=1.0.229", features = ["derive"] }
ply-rs = "=0.1.3"
xml-rs = "=0.8.29"
rand = "0.8"
rand_pcg = "0.3"
