[package]
name = "boa_idb"
version = "0.1.0"
edition = "2021"
publish = false

[dependencies]
boa_engine = { version = "*", default-features = false }
boa_gc = "*"
indexmap = "*"
parking_lot = "*"
