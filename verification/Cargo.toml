[package]
name = "bootcore"
version = "0.1.0"
edition = "2021"
publish = false

[dependencies]
x86_64 = { version = "=0.15.2", default-features = false, features = ["instructions"] }
limine = "=0.5.0"
uart_16550 = "=0.8.1"
spin = "=0.12.3"
lazy_static = "=1.5.1"
linked_list_allocator = "=0.10.6"
