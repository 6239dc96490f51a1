[package]
name = "git_ignore"
version = "0.1.0"
edition = "2021"
publish = false

[dependencies]
glob = "*"
