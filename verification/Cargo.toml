[package]
name = "chip8_lib"
version = "0.1.0"
edition = "2021"
publish = false

[dependencies]
rand = "=0.8.8"
instant = "=0.1.13"
log = "=0.4.34"
wasm-bindgen = "=0.2.129"
console_log = "=1.1.0"
console_error_panic_hook = "=0.1.7"
