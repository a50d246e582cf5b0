[package]
name = "noirdoc"
version = "0.1.0"
edition = "2021"
publish = false

[dependencies]
askama = "=0.12.1"
