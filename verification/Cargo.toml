[package]
name = "hunspell_rs"
version = "0.1.0"
edition = "2021"
publish = false

[dependencies]
hunspell-sys = "*"
serde = { version = "*", features = ["derive"] }
