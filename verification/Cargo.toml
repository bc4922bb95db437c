[package]
name = "crabots"
version = "0.1.0"
edition = "2021"
publish = false

[dependencies]
rand = "0.7"
rand_pcg = "0.2"
clap = "2"
ambassador = "0.2"
enum-utils = "0.1"
