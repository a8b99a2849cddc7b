[package]
name = "midenc_frontend_wasm"
version = "0.10.0"
edition = "2021"
publish = false

[dependencies]
cranelift-entity = "0.123"
