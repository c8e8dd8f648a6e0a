[package]
name = "aptsrc"
version = "0.1.0"
edition = "2021"
publish = false

[dependencies]
clap = { version = "*", features = ["derive"] }
color-eyre = "*"
eyre = "*"
once_cell = "*"
regex = "*"
reqwest = { version = "*", default-features = false, features = ["blocking"] }
tempfile = "*"
thiserror = "*"
