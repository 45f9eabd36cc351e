[package]
name = "yatsenos"
version = "0.1.0"
edition = "2021"
publish = false

[dependencies]
chrono = { version = "0.4", default-features = false }
crossbeam-queue = { version = "0.3", default-features = false, features = ["alloc"] }
rand_chacha = { version = "0.3", default-features = false }
log = "0.4"
spin = "0.9"
x86_64 = { version = "0.15", default-features = false, features = ["instructions"] }
xmas-elf = "0.9"
