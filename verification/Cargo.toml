[package]
name = "ghostos"
version = "0.1.0"
edition = "2021"
publish = false

[dependencies]
elf = { version = "=0.7.4", default-features = false }
pc-keyboard = "=0.9.0"
spin = "=0.10.1"
libm = "=0.2.16"
x86_64 = { version = "=0.15.5", default-features = false, features = ["instructions"] }
heapless = "=0.8.0"
pic8259 = "=0.11.0"
bootloader_api = "=0.11.17"
linked_list_allocator = "0.10"
