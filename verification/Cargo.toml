[package]
name = "bioristor_lib"
version = "0.1.0"
edition = "2021"
publish = false

[dependencies]
cortex-m = "0.7"
cortex-m-rt = "0.7"
micromath = "2"
nalgebra = { version = "*", default-features = false }
