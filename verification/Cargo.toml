[package]
name = "tarotrs"
version = "0.1.0"
edition = "2021"
publish = false

[dependencies]
rand = "0.8"
itertools = "0.10"
roman = "0.1"
serde = { version = "1", features = ["derive"] }
toml = "0.7"
strum_macros = "0.24"
dirs = "5"
cursive = { version = "0.20", default-features = false, features = ["crossterm-backend"] }
