[package]
name = "g2hash"
version = "0.1.0"
edition = "2021"
publish = false

[dependencies]
pairing = "*"
ff = "*"
group = "*"
sha2 = "*"
hex = "*"
serde = "*"
