[package]
name = "ct_regex_internal"
version = "0.1.0"
edition = "2021"
publish = false

[dependencies]
regex-syntax = "0.8"
proc-macro2 = "1"
quote = "1"
syn = { version = "2", features = ["full"] }
bstr = "1"
arcstr = "1"
hipstr = "0.8"
ecow = "0.2"
