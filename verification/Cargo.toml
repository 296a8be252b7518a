[package]
name = "either_field"
version = "0.1.0"
edition = "2021"
publish = false

[dependencies]
syn = { version = "*", features = ["full"] }
proc-macro2 = "*"
quote = "*"
