[package]
name = "rust-expression"
version = "0.3.0"
edition = "2021"
publish = false

[dependencies]
num = "0.4"
thiserror = "1.0"
