[package]
name = "matrix_graph"
version = "0.1.0"
edition = "2021"
publish = false

[dependencies]
blake2 = "0.10"
image = { version = "0.25", default-features = false, features = ["png"] }
rayon = "1"
