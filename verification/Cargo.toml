[package]
name = "hyper_static"
version = "0.1.0"
edition = "2021"
publish = false

[dependencies]
clap = "2"
deflate = "0.7"
futures = "0.1"
hyper = { version = "0.11", default-features = false }
memmap = "0.7"
mime_guess = "2.0"
unicase = "2"
