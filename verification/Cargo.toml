[package]
name = "rspell"
version = "0.1.0"
edition = "2021"
publish = false

[dependencies]
encoding_rs = "*"
curl = "*"
directories = "*"
log = "*"
env_logger = "*"
serde = { version = "*", features = ["derive"] }
structopt = "*"
toml = "*"
unicode-segmentation = "*"
