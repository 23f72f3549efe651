[package]
name = "morse_rx"
version = "0.1.0"
edition = "2021"
publish = false

[dependencies]
pipewire = "*"
bytemuck = "*"
term_size = "*"
