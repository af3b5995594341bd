[package]
name = "notecalc"
version = "0.1.0"
edition = "2021"
publish = false

[dependencies]
smallvec = "1"
typed-arena = "2"
