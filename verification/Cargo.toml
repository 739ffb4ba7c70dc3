[package]
name = "rust_digger"
version = "0.1.0"
edition = "2021"
publish = false

[dependencies]
chrono = "0.4"
# held back: newer lines pull a string crate that asks for a newer compiler
liquid = "=0.24.0"
log = "0.4"
