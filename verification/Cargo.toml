[package]
name = "mux_core"
version = "0.1.0"
edition = "2021"
publish = false

[dependencies]
anyhow = "1.0"
async-std = "1.13"
async-task = "3.0"
crossbeam = "0.8"
lazy_static = "1.4"
log = "0.4"
shared_library = "0.1"
termwiz = "0.23"
tokio = { version = "1", features = ["rt-multi-thread"] }
winapi = "0.3"
