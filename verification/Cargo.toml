[package]
name = "phobos_mm"
version = "0.1.0"
edition = "2021"
publish = false

[dependencies]
arrayvec = "=0.7.8"
log = "=0.4.34"
uefi = { version = "=0.41.0", default-features = false, features = ["alloc"] }
x86_64 = { version = "=0.15.5", default-features = false, features = ["instructions"] }

[dev-dependencies]
elf_rs = "=0.3.1"
