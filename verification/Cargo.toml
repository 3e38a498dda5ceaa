[package]
name = "bootdisk"
version = "0.1.0"
edition = "2021"
publish = false

[dependencies]
fatfs = { version = "=0.3.6", default-features = false, features = ["std", "alloc"] }
gpt = "=4.1.0"
ovmf-prebuilt = "=0.2.9"
