[package]
name = "oas3_gen"
version = "0.1.0"
edition = "2021"
publish = false

[dependencies]
anyhow = "1"
http = "1"
indexmap = "2"
oas3 = "*"
strum = { version = "*", features = ["derive"] }
