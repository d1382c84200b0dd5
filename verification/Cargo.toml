[package]
name = "playastation"
version = "0.1.0"
edition = "2021"
publish = false

[dependencies]
smallvec = "1"
arraydeque = "0.5"
tracing = "0.1"
tracing-subscriber = "0.3"
crossbeam-utils = "0.8"
triple_buffer = "*"
