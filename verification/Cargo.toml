[package]
name = "turtle"
version = "0.1.0"
edition = "2021"
publish = false

[dependencies]
ctrlc = "*"
dirs = "*"
rustyline = "*"
serde = { version = "*", features = ["derive"] }
serde_derive = "*"
subprocess = "*"
termion = "*"
toml = "*"
