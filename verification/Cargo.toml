[package]
name = "sway_action"
version = "0.1.0"
edition = "2021"
publish = false

[dependencies]
clap = "2"
i3ipc = "*"
shellexpand = "*"
