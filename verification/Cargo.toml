[package]
name = "aichat"
version = "0.1.0"
edition = "2021"
publish = false

[dependencies]
anyhow = "*"
chrono = "*"
clap = { version = "*", features = ["derive"] }
dirs = "*"
oauth2 = { version = "*", default-features = false }
open = "*"
reqwest = { version = "*", default-features = false, features = ["blocking", "rustls-tls"] }
shell-words = "*"
