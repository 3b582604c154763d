[package]
name = "codecrafters_shell"
version = "0.1.0"
edition = "2021"
publish = false

[dependencies]
rustyline = { version = "17.0.2", features = ["derive"] }
