[package]
name = "slugify"
version = "0.1.0"
edition = "2021"
publish = false

[dependencies]
any_ascii = "*"
heck = "*"
regex = "*"
strip-ansi-escapes = "*"
sanitation = "*"
iocore = "*"
clap = { version = "*", features = ["derive"] }
serde = { version = "*", features = ["derive"] }
