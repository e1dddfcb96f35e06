[package]
name = "boot_services_allocator"
version = "0.1.0"
edition = "2021"
publish = false

[dependencies]
r-efi = "*"
spin = "*"
