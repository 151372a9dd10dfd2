[package]
name = "page_fetch"
version = "0.1.0"
edition = "2021"
publish = false

[dependencies]
encoding = "0.2"
flate2 = "1"
hyper = "0.10"
