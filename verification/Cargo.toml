[package]
name = "remu"
version = "0.1.0"
edition = "2021"
publish = false

[dependencies]
capstone = "0.11"
unicorn-engine = "2.0"
crossterm = "0.25"
tui = "0.19"
