[package]
name = "stackgraph"
version = "0.1.0"
edition = "2021"
publish = false

[dependencies]
bimap = "0.6"
cpp_demangle = "0.4"
petgraph = "0.6"
clap = { version = "4", features = ["derive"] }
glob = "0.3"
indicatif = "0.17"
