[package]
name = "dex_harness"
version = "0.1.0"
edition = "2021"
publish = false

[dependencies]
itertools = "=0.10.5"
arbitrary = "=1.5.0"
bumpalo = "3"
