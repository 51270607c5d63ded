[package]
name = "qrkit"
version = "0.1.0"
edition = "2021"
publish = false

[dependencies]
clap = { version = "=4.6.7", features = ["derive"] }
image = "=0.25.10"
qrcodegen = "=1.8.0"
quircs = "=0.10.3"
