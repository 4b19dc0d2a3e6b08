[package]
name = "tico"
version = "0.1.0"
edition = "2021"
publish = false

[dependencies]
ropey = "1"
regex = "1"
similar = "2"
clap = { version = "4", features = ["derive"] }
crossterm = "*"
dirs = "*"
libc = "*"
rustix = { version = "1", features = ["fs", "system"] }
toml = "*"
anyhow = "1"
