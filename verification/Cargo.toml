[package]
name = "rs_clone"
version = "0.1.0"
edition = "2021"
publish = false

[dependencies]
regex = "1"
rustyline = "*"
serde = { version = "1", features = ["derive"] }
toml = "*"
walkdir = "2"
