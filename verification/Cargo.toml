[package]
name = "rawpacket"
version = "0.1.0"
edition = "2021"
publish = false

[dependencies]
clap = { version = "*", features = ["derive"] }
libc = "*"
socket2 = { version = "*", features = ["all"] }
