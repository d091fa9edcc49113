[package]
name = "quinn_proto"
version = "0.1.0"
edition = "2021"
publish = false

[dependencies]
rand = "0.10"
rand_pcg = "0.10"
