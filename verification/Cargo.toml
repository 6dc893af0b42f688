[package]
name = "test_harness"
version = "0.1.0"
edition = "2021"
publish = false

[dependencies]
rand = "0.8"
serde_json = "1"
tempdir = "0.3"
