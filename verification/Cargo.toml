[package]
name = "fileman"
version = "0.1.0"
edition = "2021"
publish = false

[dependencies]
chrono = "0.4"
natord = "1.0"
walkdir = "2"
termion = "*"
toml = "*"
