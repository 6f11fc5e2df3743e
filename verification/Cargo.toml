[package]
name = "fringe"
version = "0.1.0"
edition = "2021"
publish = false

[dependencies]
stack = "=0.1.3"
void = "=1.0.2"
libc = "=0.2.190"
