[package]
name = "secure_link"
version = "0.1.0"
edition = "2021"
publish = false

[dependencies]
chacha20poly1305 = { version = "=0.10.1", default-features = false, features = ["alloc"] }
rand_chacha = { version = "=0.3.1", default-features = false }
sha3 = { version = "=0.10.9", default-features = false }
once_cell = { version = "=1.21.4", default-features = false, features = ["critical-section"] }
cortex-m = "=0.7.10"
tm4c123x-hal = "0.10"
