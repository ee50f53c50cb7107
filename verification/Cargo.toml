[package]
name = "mappy_rs"
version = "0.1.0"
edition = "2021"
publish = false

[dependencies]
crossbeam = "0.8"
ctrlc = "3"
fnv = "1.0"
itertools = "0.10"
libc = "0.2"
minimap2 = "0.1"
minimap2-sys = "0.1"
pyo3 = { version = "0.19", features = ["extension-module"] }
