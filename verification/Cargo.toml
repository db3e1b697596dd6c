[package]
name = "depgraph"
version = "0.1.0"
edition = "2021"
publish = false

[dependencies]
clap = "2"
failure = "0.1"
petgraph = "0.6"
syn = { version = "2", features = ["full", "visit"] }
walkdir = "2"
