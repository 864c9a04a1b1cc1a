[package]
name = "htmli"
version = "0.1.0"
edition = "2021"
publish = false

[dependencies]
minifier = { version = "=0.4.0", default-features = false, features = ["html"] }
docopt = "=1.1.1"
