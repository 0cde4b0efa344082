[package]
name = "caller_modpath_aggregator"
version = "0.1.0"
edition = "2021"
publish = false

[dependencies]
uuid = { version = "*", features = ["v4"] }
cargo-manifest = "*"
glob = "*"
proc-macro2 = { version = "*", features = ["span-locations"] }
quote = "*"
syn = { version = "*", features = ["full"] }
