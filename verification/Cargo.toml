[package]
name = "routes_derive"
version = "0.1.0"
edition = "2021"

[dependencies]
proc-macro2 = "=1.0.107"
quote = "=1.0.47"
regex = "=1.13.1"
syn = { version = "=1.0.109", features = ["full"] }
