[package]
name = "cpp_class"
version = "0.1.0"
edition = "2021"
publish = false

[dependencies]
syn = { version = "2", features = ["full", "parsing", "printing"] }
proc-macro2 = "1"
quote = "1"
