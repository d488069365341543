[package]
name = "dyn_wall_rs"
version = "1.0.0"
edition = "2021"
publish = false

[dependencies]
chrono = "0.4"
clokwerk = "*"
walkdir = "2"
alphanumeric-sort = "*"
