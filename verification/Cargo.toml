[package]
name = "oxui"
version = "0.1.0"
edition = "2021"
publish = false

[dependencies]
sha1_smol = "=1.0.1"
base64 = "=0.22.1"
