[package]
name = "websteer"
version = "0.1.0"
edition = "2021"
publish = false

[dependencies]
anyhow = "1"
dirs = "*"
regex = "1"
serde = { version = "1", features = ["derive"] }
serde_yaml = "*"
structopt = "0.3"
