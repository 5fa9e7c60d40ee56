[package]
name = "masked_storage"
version = "0.1.0"
edition = "2021"
publish = false

[dependencies]
hibitset = "0.5"
shred = "0.7"

[dev-dependencies]
rayon = "1"
