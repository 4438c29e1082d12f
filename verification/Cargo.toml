[package]
name = "multichannel"
version = "0.1.0"
edition = "2021"
publish = false

[dependencies]
ahash = "0.8"
crossbeam-channel = "0.5"
rand = "0.8"
smallvec = "1"
thiserror = "1"
