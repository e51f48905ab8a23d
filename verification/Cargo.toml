[package]
name = "proc_qq"
version = "0.1.0"
edition = "2021"
publish = false

[dependencies]
regex = "1"
ricq = "*"
ricq-core = "*"
