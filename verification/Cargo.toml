[package]
name = "cymatrox"
version = "0.1.0"
edition = "2021"
publish = false

[dependencies]
wgpu = "=30.0.1"
thiserror = "=2.0.21"
bytemuck = { version = "=1.25.2", features = ["derive"] }
tiny_http = "=0.12.0"
futures-channel = "=0.3.34"
wasm-bindgen = "=0.2.130"
wasm-bindgen-futures = "=0.4.80"
console_error_panic_hook = "0.1"
