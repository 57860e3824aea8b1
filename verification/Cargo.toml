[package]
name = "log_zipper"
version = "0.1.0"
edition = "2021"
publish = false

[dependencies]
chrono = "0.4"
zip = "0.6"
walkdir = "2"
rayon = "1"
indicatif = "0.17"
