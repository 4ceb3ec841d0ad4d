[package]
name = "lucid"
version = "0.1.0"
edition = "2021"
publish = false

[dependencies]
async-trait = "0.1"
block-modes = "0.8"
chashmap = "2.2"
chrono = "0.4"
hex = "0.4"
rand = "0.8"
serpent = "0.4"
tree_magic = "0.2"
