[package]
name = "incodoc_to_ansi"
version = "0.1.0"
edition = "2021"
publish = false

[dependencies]
bat = { version = "*", default-features = false, features = ["regex-fancy"] }
term-table = "*"
incodoc = "*"
md-to-incodoc = "*"
term_size = "*"
zen-colour = "*"
