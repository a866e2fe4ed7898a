[package]
name = "heh"
version = "0.6.1"
edition = "2021"
publish = false

[dependencies]
arboard = { version = "3", default-features = false }
clap = { version = "4", features = ["derive"] }
crossbeam = "0.8"
hex = "0.4"
memmap2 = "0.9"
ratatui = "0.29"
