[package]
name = "rap_trace"
version = "0.1.0"
edition = "2021"
publish = false

[dependencies]
syn = { version = "1", features = ["full"] }
proc-macro2 = { version = "1", features = ["span-locations"] }
clap = "2"
