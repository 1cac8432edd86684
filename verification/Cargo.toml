[package]
name = "simple_bootloader"
version = "0.1.0"
edition = "2021"
publish = false

[dependencies]
x86_64 = { version = "=0.14.13", default-features = false, features = ["instructions"] }
xmas-elf = "=0.10.0"
fixedvec = "=0.2.4"
bytemuck = "1"
