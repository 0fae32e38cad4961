[package]
name = "mathenvirons"
version = "0.1.0"
edition = "2021"
publish = false

[dependencies]
clap = "=4.6.7"
mdbook = "=0.4.52"
serde_json = "=1.0.151"
