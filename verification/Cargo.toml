[package]
name = "emul8rs"
version = "0.1.0"
edition = "2021"
publish = false

[dependencies]
anyhow = "*"
clap = { version = "*", features = ["derive"] }
colog = "*"
confy = "*"
log = "*"
rand = "*"
serde = { version = "*", features = ["derive"] }
