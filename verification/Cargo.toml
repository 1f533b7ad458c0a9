[package]
name = "grid"
version = "0.1.0"
edition = "2021"
publish = false

[dependencies]
ansi_term = "=0.12.1"
itertools = "=0.10.5"
ndarray = "=0.15.6"
prettytable-rs = { version = "=0.10.0", default-features = false }
rand = "=0.8.8"
rodio = "0.11"
termion = "=1.5.6"
