[package]
name = "loadgen"
version = "0.1.0"
edition = "2021"
publish = false

[dependencies]
rand = "0.8"
regex = "1"
tokio = { version = "1", features = ["rt-multi-thread", "macros", "process", "sync", "time", "fs", "io-util"] }
nix = { version = "0.29", features = ["signal", "process"] }
chrono = "0.4"
