[package]
name = "zts_parser"
version = "0.1.0"
edition = "2021"
publish = false

[dependencies]
swc_atoms = "*"
swc_common = "*"
stacker = "*"
