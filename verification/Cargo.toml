[package]
name = "fusarium"
version = "0.1.0"
edition = "2021"
publish = false

[dependencies]
embedded-graphics = "=0.8.2"
embedded-text = "=0.7.3"
heapless = "=0.8.0"
x86_64 = { version = "=0.15.5", default-features = false, features = ["instructions"] }
tock-registers = "=0.10.1"
spin = "=0.9.9"
lazy_static = "=1.5.1"
volatile = "=0.6.1"
uart_16550 = "=0.9.0"
conquer-once = "=0.4.0"
arm-pl011-uart = "=0.5.1"
embedded-alloc = "=0.7.0"
linked_list_allocator = "=0.10.6"
bootloader = "=0.9.35"
