[package]
name = "mutator"
version = "0.1.0"
edition = "2021"
publish = false

[dependencies]
bincode = "=1.3.3"
rand = "=0.7.3"
libc = "=0.2.191"
