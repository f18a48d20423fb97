[package]
name = "ising_montecarlo"
version = "0.1.0"
edition = "2021"
publish = false

[dependencies]
clap = { version = "4", features = ["derive"] }
rand = "0.9"
rayon = "1"
uuid = { version = "1", features = ["v4"] }
