[package]
name = "cnab-fixedwidth"
version = "0.1.0"
edition = "2021"
publish = false

[dependencies]
proc-macro2 = "1"
quote = "1"
syn = "2"
thiserror = "1"
