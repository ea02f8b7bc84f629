[package]
name = "sanitize"
version = "0.1.0"
edition = "2021"
publish = false

[dependencies]
comrak = { version = "=0.47.0", default-features = false }
convert_case = "=0.12.0"
proc-macro2 = "=1.0.107"
quote = "=1.0.47"
syn = "=2.0.119"
