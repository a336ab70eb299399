[package]
name = "symbol_table"
version = "0.1.0"
edition = "2021"
publish = false

[dependencies]
oxc_ast = "<0.0.7"
oxc_span = "=0.0.7"
