[package]
name = "streampager"
version = "0.1.0"
edition = "2021"
publish = false

[dependencies]
regex = "*"
clap = "*"
anyhow = "*"
thiserror = "*"
tempfile = "*"
