[package]
name = "viuer"
version = "0.1.0"
edition = "2021"
publish = false

[dependencies]
ansi_colours = "*"
crossterm = "*"
termcolor = "*"
image = { version = "*", default-features = false, features = ["png"] }
