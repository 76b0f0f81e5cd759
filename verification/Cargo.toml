[package]
name = "prismarine_anchor"
version = "0.1.0"
edition = "2021"
publish = false

[dependencies]
flate2 = "=1.1.10"
anyhow = "=1.0.104"
cesu8 = "=1.1.0"
byteorder = "=1.5.0"
varint-rs = "=2.2.1"
indexmap = "=2.14.2"
rusty-leveldb = "=3.0.3"
unicode_names2 = "*"
