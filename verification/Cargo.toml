[package]
name = "bind_it"
version = "0.1.0"
edition = "2021"
publish = false

[dependencies]
uuid = { version = "0.8", features = ["v4"] }
syn = { version = "1", features = ["full"] }
quote = "1"
proc-macro2 = "1"
