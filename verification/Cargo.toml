[package]
name = "rusty_mind"
version = "0.1.0"
edition = "2021"
publish = false

[dependencies]
chess = "=3.2.0"
rand = "=0.8.8"
regex = "=1.13.1"
shakmaty = "=0.30.1"
shakmaty-syzygy = "=0.28.1"
