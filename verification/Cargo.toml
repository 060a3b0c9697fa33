[package]
name = "echo_mux"
version = "0.1.0"
edition = "2021"
publish = false

[dependencies]
futures = "0.1"
mio = "0.6"
nix = "0.9"
tokio-core = "0.1"
