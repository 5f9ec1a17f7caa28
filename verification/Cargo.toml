[package]
name = "process_runner"
version = "0.1.0"
edition = "2021"
publish = false

[dependencies]
config = "*"
simple-log = "*"
mslnk = "*"
special-folder = "*"
