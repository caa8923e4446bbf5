[package]
name = "sha1dir"
version = "1.0.0"
edition = "2021"
publish = false

[dependencies]
clap = { version = "4", features = ["derive"] }
memmap = "0.7"
num_cpus = "1"
parking_lot = "0.12"
rayon = "1"
sha1 = "0.6"
structopt = "0.3"
