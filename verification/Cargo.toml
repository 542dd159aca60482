[package]
name = "wasm_llvm"
version = "0.1.0"
edition = "2021"
publish = false

[dependencies]
parity-wasm = "=0.31.3"
llvm-sys = { version = "=140.1.3", features = ["force-dynamic"] }
libc = "=0.2.191"
log = "=0.4.35"
env_logger = "=0.10.2"
