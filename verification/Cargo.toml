[package]
name = "uniswap_pricing"
version = "0.1.0"
edition = "2021"
publish = false

[dependencies]
substreams = "=0.8.0"
bigdecimal = "=0.4.11"
