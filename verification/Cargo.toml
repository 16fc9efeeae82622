[package]
name = "moonwave"
version = "0.1.0"
edition = "2021"
publish = false

[dependencies]
anyhow = "*"
codespan-reporting = "*"
fs-err = "*"
full_moon = { version = "*", features = ["luau"] }
pathdiff = "*"
serde = { version = "*", features = ["derive"] }
serde_json = "*"
structopt = "*"
walkdir = "*"
