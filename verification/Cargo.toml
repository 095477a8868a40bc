[package]
name = "jsonapi"
version = "0.1.0"
edition = "2021"
publish = false

[dependencies]
syn = "=2.0.119"
quote = "=1.0.47"
proc-macro2 = "=1.0.107"

[dev-dependencies]
serde_derive = "1"
