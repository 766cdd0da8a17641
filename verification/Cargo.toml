[package]
name = "light_evm"
version = "0.1.0"
edition = "2021"
publish = false

[dependencies]
hex = "*"
clap = "*"
crossterm = "*"
