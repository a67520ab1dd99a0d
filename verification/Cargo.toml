[package]
name = "d6_core"
version = "0.1.0"
edition = "2021"
publish = false

[dependencies]
geometric_algebra = "*"
glam = "*"
