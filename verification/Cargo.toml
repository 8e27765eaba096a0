[package]
name = "ec_acpi"
version = "0.1.0"
edition = "2021"
publish = false

[dependencies]
bytemuck = "1"
uuid = "1"
color-eyre = "0.6"
