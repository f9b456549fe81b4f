[package]
name = "bf"
version = "0.1.0"
edition = "2021"

[dependencies]
llvm-sys = { version = "=231.0.1", features = ["no-llvm-linking"] }
