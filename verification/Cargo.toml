[package]
name = "cbake"
version = "0.1.0"
edition = "2021"

[dependencies]
ansi_term = "0.12"
regex = "1"
structopt = "0.3"
