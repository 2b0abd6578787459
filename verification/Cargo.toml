[package]
name = "tower_of_hanoi"
version = "0.1.0"
edition = "2021"
publish = false

[dependencies]
tcod = "0.15"
