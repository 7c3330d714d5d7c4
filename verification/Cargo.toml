[package]
name = "umbra"
version = "0.1.0"
edition = "2021"
publish = false

[dependencies]
x86_64 = { version = "=0.15.5", default-features = false, features = ["instructions"] }
xmas-elf = "=0.10.0"
zero = "=0.1.3"
crossbeam-utils = "=0.8.23"
noto-sans-mono-bitmap = "=0.4.0"
pc-keyboard = "=0.9.0"
spin = "=0.12.3"
bootloader_api = "=0.11.17"
acpi = "=6.1.1"
lazy_static = "=1.5.1"
pic8259 = "=0.11.0"
conquer-once = "=0.4.0"
crossbeam-queue = "=0.3.14"
futures-util = "=0.3.34"
