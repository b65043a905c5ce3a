[package]
name = "draw_thread"
version = "0.1.0"
edition = "2021"
publish = false

[dependencies]
console_static_text = "*"
log = "*"
once_cell = "*"
