[package]
name = "art_of_vm"
version = "0.1.0"
edition = "2021"

[dependencies]
bincode = "1"
