[package]
name = "niri_action"
version = "0.1.0"
edition = "2021"
publish = false

[dependencies]
niri-ipc = "*"
clap = "*"
