[package]
name = "wasi_usb"
version = "0.1.0"
edition = "2021"
publish = false

[dependencies]
anyhow = "=1.0.104"
clap = { version = "=4.6.7", features = ["derive"] }
env_logger = "=0.11.11"
libc = "=0.2.191"
libusb1-sys = "=0.7.0"
log = "=0.4.35"
once_cell = "=1.21.4"
rusb = "=0.9.4"
sha2 = "=0.10.9"
tokio = { version = "=1.54.1", features = ["macros", "rt-multi-thread", "sync"] }
wasmtime = { version = "=31.0.0", features = ["component-model-async"] }
wasmtime-wasi = "=31.0.0"
wit-bindgen = "=0.41.0"

[lints.rust]
unexpected_cfgs = { level = "warn", check-cfg = ["cfg(wasi_rusb)"] }
