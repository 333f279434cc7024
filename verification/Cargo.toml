[package]
name = "counter_bench"
version = "0.1.0"
edition = "2021"
publish = false

[dependencies]
perf-event = "0.4"
rand = "0.8"
thousands = "0.2"
