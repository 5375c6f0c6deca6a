[package]
name = "tui-equalizer"
version = "0.1.0"
edition = "2021"
publish = false

[dependencies]
ratatui = "0.29"
rand = "0.8"
