[package]
name = "rustris"
version = "0.1.0"
edition = "2021"

[dependencies]
rand = "0.9"
crossterm = "0.29"
