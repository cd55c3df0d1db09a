[package]
name = "rquickjs_playground"
version = "0.1.0"
edition = "2021"
publish = false

[dependencies]
rquickjs = { version = "=0.14.0", features = ["futures"] }
serde = "=1.0.229"
serde_json = "=1.0.154"
tokio = { version = "=1.54.1", features = ["sync"] }
reqwest = { version = "=0.13.5", default-features = false, features = ["blocking"] }
filetime = "=0.2.29"
wasmtime = "=48.0.8"
wasmtime-wasi = "=48.0.8"
