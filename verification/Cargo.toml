[package]
name = "faptopia"
version = "0.1.0"
edition = "2021"
publish = false

[dependencies]
clap = { version = "*", features = ["derive"] }
serde = { version = "*", features = ["derive"] }
serde_json = "*"
tiny_http = "*"
ureq = { version = "*", features = ["json"] }
