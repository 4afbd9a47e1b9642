[package]
name = "drumchords"
version = "0.1.0"
edition = "2021"
publish = false

[dependencies]
midly = { version = "0.5", default-features = false, features = ["alloc", "std"] }
hound = "3"
crossbeam = "0.8"
wmidi = "4"
rubato = "0.12"
