[package]
name = "spacetime_os"
version = "0.1.0"
edition = "2021"
publish = false

[dependencies]
bootloader = { version = "0.9", features = ["map_physical_memory"] }
crossbeam-queue = "0.3"
spin = "0.9"
x86_64 = { version = "0.15", default-features = false, features = ["instructions"] }
