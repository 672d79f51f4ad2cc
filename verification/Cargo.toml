[package]
name = "rusterizer"
version = "0.1.0"
edition = "2021"
publish = false

[dependencies]
parking_lot = "0.12"
rayon = "1"
png = "0.17"
raylib = "*"
minifb = "*"
