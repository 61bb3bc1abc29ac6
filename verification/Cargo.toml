[package]
name = "nbody"
version = "0.1.0"
edition = "2021"
publish = false

[dependencies]
bincode = "1"
mpi = "*"
rayon = "1"
serde = { version = "1", features = ["derive"] }
