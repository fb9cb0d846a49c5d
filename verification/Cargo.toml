[package]
name = "froman"
version = "0.1.0"
edition = "2021"
publish = false

[dependencies]
redis = "*"
nix = { version = "*", features = ["signal", "process"] }
cmdline_words_parser = "*"
chrono = "*"
clap = "*"
yaml-rust = "*"
