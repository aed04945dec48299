[package]
name = "portscan"
version = "0.1.0"
edition = "2021"
publish = false

[dependencies]
clap = { version = "*", features = ["derive"] }
indicatif = { version = "*", features = ["rayon"] }
rayon = "*"
