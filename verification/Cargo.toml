[package]
name = "file_log"
version = "0.1.0"
edition = "2021"

[dependencies]
once_cell = "1"
