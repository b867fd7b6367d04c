[package]
name = "remerge"
version = "0.1.0"
edition = "2021"
publish = false

[dependencies]
semver = "1"
rand = "*"
