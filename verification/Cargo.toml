[package]
name = "apogee"
version = "0.1.0"
edition = "2021"
publish = false

[dependencies]
x86_64 = { version = "=0.15.5", default-features = false, features = ["instructions"] }
crossbeam-queue = { version = "=0.3.14", default-features = false, features = ["alloc"] }
spin = "=0.9.9"
uart_16550 = "=0.3.2"
pic8259 = { version = "=0.11.0", default-features = false }
pc-keyboard = "=0.7.0"
conquer-once = { version = "=0.4.0", default-features = false }
futures-util = { version = "=0.3.34", default-features = false, features = ["alloc"] }
lazy_static = { version = "=1.5.1", features = ["spin_no_std"] }
bootloader = { version = "=0.9.35", features = ["map_physical_memory"] }
