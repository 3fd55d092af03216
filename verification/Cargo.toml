[package]
name = "kernel8"
version = "0.2.0"
edition = "2021"
publish = false

[dependencies]
x86_64 = { version = "=0.15.5", default-features = false, features = ["instructions"] }
pc-keyboard = "=0.9.0"
bootloader_api = "=0.11.17"
pic8259 = { version = "=0.11.0", default-features = false }
spin = "=0.9.9"
uart_16550 = "=0.9.0"
lazy_static = { version = "=1.5.1", features = ["spin_no_std"] }
