[package]
name = "vga_text"
version = "0.1.0"
edition = "2021"

[dependencies]
volatile = "0.2"
spin = "*"
lazy_static = "*"
