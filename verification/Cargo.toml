[package]
name = "jsonlines"
version = "0.1.0"
edition = "2021"
publish = false

[dependencies]
camino = "1"
is_executable = "1"
json = "0.12"
thiserror = "1"
