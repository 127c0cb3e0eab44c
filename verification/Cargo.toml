[package]
name = "ebook_metadata"
version = "0.1.0"
edition = "2021"
publish = false

[dependencies]
clap = "4"
env_logger = "*"
epub = "*"
log = "0.4"
mobi = "*"
pdf = "*"
