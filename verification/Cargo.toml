[package]
name = "udpbd_vexfat"
version = "0.1.0"
edition = "2021"
publish = false

[dependencies]
anyhow = "1"
clap = { version = "4.5", features = ["derive"] }
itertools = "0.13"
walkdir = "2"
