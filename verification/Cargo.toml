[package]
name = "termgrid"
version = "0.1.0"
edition = "2021"
publish = false

[dependencies]
crossterm = "*"
log = "*"
log4rs = "*"
once_cell = "*"
shutdown_hooks = "*"
signal-hook = "*"
