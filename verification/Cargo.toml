[package]
name = "replica_map"
version = "0.1.0"
edition = "2021"
publish = false

[dependencies]
stateright = "*"
clap = { version = "*", features = ["derive"] }
num_cpus = "*"
