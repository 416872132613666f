[package]
name = "dotlanth"
version = "0.1.0"
edition = "2021"
publish = false

[dependencies]
rusqlite = "*"
fs-err = "*"

[dev-dependencies]
tempfile = "*"
