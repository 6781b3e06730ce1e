[package]
name = "ant_link"
version = "0.1.0"
edition = "2021"
publish = false

[dependencies]
cc = "1"
clap = { version = "4", features = ["derive"] }
once_cell = "1"
