[package]
name = "envflag"
version = "0.1.0"
edition = "2021"
publish = false

[dependencies]
dotenvy = "*"
fancy-regex = "*"
thiserror = "*"
tracing = "*"
