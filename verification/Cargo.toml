[package]
name = "imt_cli"
version = "0.1.0"
edition = "2021"
publish = false

[dependencies]
seahorse = "=0.7.1"
dirs = "=7.0.0"
