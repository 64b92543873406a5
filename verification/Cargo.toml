[package]
name = "chippie"
version = "0.1.0"
edition = "2021"

[dependencies]
eframe = "0.17"
rand = "0.8"
thiserror = "1"
