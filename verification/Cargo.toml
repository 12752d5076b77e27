[package]
name = "usb_screen"
version = "0.1.0"
edition = "2021"
publish = false

[dependencies]
lz4_flex = { version = "=0.11.6", default-features = false, features = ["safe-encode", "safe-decode"] }
byte-slice-cast = { version = "=1.2.3", default-features = false }
heapless = "=0.8.0"
embassy-sync = "=0.8.0"
embassy-time = "=0.5.1"
embassy-usb = "=0.6.0"
embassy-futures = "=0.1.2"
embassy-embedded-hal = "=0.6.0"
embedded-alloc = "=0.7.0"
static_cell = "=2.1.1"
display-interface = "=0.5.0"
embedded-graphics-core = "=0.4.1"
embedded-hal = "=1.0.0"
micromath = "=2.1.0"
rand_core = { version = "=0.9.5", default-features = false }
futures = { version = "=0.3.34", default-features = false }
