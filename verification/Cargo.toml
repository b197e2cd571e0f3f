[package]
name = "renderx"
version = "0.1.0"
edition = "2021"
publish = false

[dependencies]
lookahead = "*"
proc-macro2 = "*"
quote = "*"
syn = { version = "*", features = ["full"] }
