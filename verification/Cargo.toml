[package]
name = "caps"
version = "0.5.5"
edition = "2021"
publish = false

[dependencies]
bitflags = "2"
libc = "0.2"
serde = { version = "1", features = ["derive"] }
