[package]
name = "nu_core"
version = "0.1.0"
edition = "2021"
publish = false

[dependencies]
im = "15.0.0"
Inflector = "0.11"
miette = "3.0.0"
