[package]
name = "life"
version = "0.1.0"
edition = "2021"

[dependencies]
rand = "0.8"
rayon = "1"
termion = "1.5"
