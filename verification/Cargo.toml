[package]
name = "secmsg"
version = "0.1.0"
edition = "2021"
publish = false

[dependencies]
rust-crypto = "0.2"
rand = "0.3"
rustc-serialize = "0.3"
crossbeam = "0.3"
