[package]
name = "callgraph"
version = "0.1.0"
edition = "2021"
rust-version = "1.95"
publish = false

[dependencies]
ra_ap_ide = "=0.0.330"
ra_ap_ide_db = "=0.0.330"
anyhow = "=1.0.104"
clap = { version = "=4.5.61", features = ["derive"] }
unicode-ident = "=1.0.22"
salsa = "=0.26.0"
salsa-macros = "=0.26.0"
salsa-macro-rules = "=0.26.0"
