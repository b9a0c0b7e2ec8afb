[package]
name = "marker"
version = "0.9.0"
edition = "2021"
publish = false

[dependencies]
clap = { version = "3", features = ["derive", "cargo"] }
hyper = "1"
pulldown-cmark = { version = "0.7", default-features = false }
rayon = "1"
reqwest = { version = "0.12", features = ["blocking"] }
url = "2"
walkdir = "2"
