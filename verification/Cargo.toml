[package]
name = "uttt_solver"
version = "0.1.0"
edition = "2021"
publish = false

[dependencies]
lru_time_cache = "*"
rand = "*"
