[package]
name = "zeropb"
version = "0.1.0"
edition = "2021"
publish = false

[dependencies]
heck = "*"
anyhow = "*"
prost-types = "*"
