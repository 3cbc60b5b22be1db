[package]
name = "typemap"
version = "0.1.0"
edition = "2021"
publish = false

[dependencies]
unsafe-any = "0.4"
