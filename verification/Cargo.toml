[package]
name = "srtshift"
version = "0.1.1"
edition = "2021"
publish = false

[dependencies]
clap = "=3.2.25"
subparse = "=0.7.0"

[dev-dependencies]
regex = "=1.13.1"
