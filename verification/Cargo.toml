[package]
name = "yek_wrapper"
version = "0.1.0"
edition = "2021"
publish = false

[dependencies]
anyhow = "1"
arboard = { version = "3", default-features = false }
clap = { version = "4", features = ["derive"] }
colored = "2"
num-format = "0.4"
serde = { version = "1", features = ["derive"] }
serde_json = "1"
