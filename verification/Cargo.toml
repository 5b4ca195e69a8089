[package]
name = "m6coll"
version = "0.1.0"
edition = "2021"
publish = false

[dependencies]
syn = { version = "=2.0.119", features = ["full"] }
quote = "=1.0.47"
proc-macro2 = "=1.0.107"
proc-macro-error = "=1.0.4"
derive-syn-parse = "=0.2.0"
nom = "8"
