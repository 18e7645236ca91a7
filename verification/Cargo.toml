[package]
name = "starfish"
version = "0.1.0"
edition = "2021"
publish = false

[dependencies]
crc = "1"
libc = "0.2"
