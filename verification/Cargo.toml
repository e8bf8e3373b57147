[package]
name = "wasm-bindgen-cli-support"
version = "0.2.36"
edition = "2021"
publish = false

[dependencies]
failure = "=0.1.8"
rustc-demangle = "=0.1.28"
walrus = "=0.1.0"
wasm-bindgen-shared = "=0.2.36"
wasm-bindgen-threads-xform = "=0.2.36"
wasm-bindgen-wasm-interpreter = "=0.2.36"

[dev-dependencies]
wasmparser = "=0.28.0"
