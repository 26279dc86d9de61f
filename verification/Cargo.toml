[package]
name = "assert_infrequent"
version = "0.1.0"
edition = "2021"
publish = false

[dependencies]
backtrace = "*"
