[package]
name = "textarea"
version = "0.1.0"
edition = "2021"

[dependencies]
rusttype = "0.9"
