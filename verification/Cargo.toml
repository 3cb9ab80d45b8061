[package]
name = "wasm_instrumentation"
version = "0.1.0"
edition = "2021"
publish = false

[dev-dependencies]
leb128 = "0.2"
