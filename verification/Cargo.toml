[package]
name = "auto_diff"
version = "0.1.0"
edition = "2021"
publish = false

[dependencies]
ahash = "0.7"
indexmap = "1"
index_vec = "0.1"
once_cell = "1"
