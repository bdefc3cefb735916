[package]
name = "exfat_fs"
version = "0.1.0"
edition = "2021"
publish = false

[dependencies]
checked_num = "=0.1.3"
