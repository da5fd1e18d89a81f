[package]
name = "lance_index"
version = "0.1.0"
edition = "2021"
publish = false

[dependencies]
roaring = "*"
serde_json = "*"
prost = "*"
half = "*"
