[package]
name = "opc"
version = "0.1.0"
edition = "2021"
publish = false

[dependencies]
chrono = "*"
snailquote = "*"
serde = { version = "*", features = ["derive"] }
quick-xml = { version = "*", features = ["serialize"] }
zip = "*"
linked-hash-map = "*"
clap = "*"
