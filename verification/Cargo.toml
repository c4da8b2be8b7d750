[package]
name = "vpi_export"
version = "0.1.0"
edition = "2021"
publish = false

[dependencies]
ctor = "=0.2.9"
proc-macro2 = "=1.0.107"
quote = "=1.0.47"
syn = { version = "=2.0.119", features = ["full"] }

[dev-dependencies]
regex = "1"
