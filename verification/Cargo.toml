[package]
name = "axiomos"
version = "0.1.0"
edition = "2021"
publish = false

[dependencies]
bitflags = "2"
conquer-once = { version = "0.4", default-features = false }
fdt = "0.1.5"
log = "0.4"
spin = "0.9"
thiserror = "2"
