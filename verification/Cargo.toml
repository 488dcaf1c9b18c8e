[package]
name = "cloud_convert"
version = "0.1.0"
edition = "2021"
publish = false

[dependencies]
anyhow = "=1.0.104"
clap = { version = "=4.6.7", features = ["derive"] }
gdal = "=0.19.0"
num-traits = "=0.2.19"
polars = { version = "*", default-features = false, features = ["lazy", "csv", "parquet"] }
rand = "=0.9.5"
rayon = "=1.12.0"
walkdir = "=2.5.0"
