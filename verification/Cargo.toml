[package]
name = "table_grep"
version = "0.1.0"
edition = "2021"
publish = false

[dependencies]
anyhow = "*"
arrow = "*"
atty = "*"
clap = { version = "*", features = ["derive"] }
colored = "*"
comfy-table = "*"
csv = "*"
parquet = "*"
regex = "*"
walkdir = "*"
