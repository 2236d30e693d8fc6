[package]
name = "otelwasm_rust_sdk"
version = "0.1.0"
edition = "2021"
publish = false

[dependencies]
once_cell = "1"
serde_json = "1"
wasmedge_wasi_socket = "*"
