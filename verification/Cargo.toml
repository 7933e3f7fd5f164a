[package]
name = "barefuzz"
version = "0.1.0"
edition = "2021"
publish = false

[dependencies]
x86_64 = { version = "0.14", default-features = false, features = ["instructions"] }
conquer-once = "0.3"
crossbeam-queue = "0.2"
bootloader = "0.9"
