[package]
name = "jscodegen"
version = "0.1.0"
edition = "2021"
publish = false

[dependencies]
daachorse = "=5.0.0"
oxc_syntax = "=0.139.0"
