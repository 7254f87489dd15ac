[package]
name = "turntable"
version = "0.1.0"
edition = "2021"
publish = false

[dependencies]
heapless = "*"
embassy-sync = "*"
embassy-time = "*"
embassy-executor = "*"
embassy-net = { version = "*", features = ["tcp", "dhcpv4", "medium-ethernet", "proto-ipv4"] }
static_cell = "*"
defmt = "*"
esp-hal = "*"
esp-radio = "*"
esp-rtos = "*"
esp-alloc = "*"
esp-backtrace = "*"
esp-println = "*"
esp-bootloader-esp-idf = "*"
