[package]
name = "weegrep"
version = "0.1.0"
edition = "2021"
publish = false

[dependencies]
grep-regex = "=0.1.14"
grep-matcher = "=0.1.9"
tokio = { version = "=1.53.2", features = ["rt", "rt-multi-thread", "sync", "macros", "fs"] }
clap = "=4.6.7"
