[package]
name = "exprcalc"
version = "0.1.0"
edition = "2021"
publish = false

[dependencies]
dashu-float = "=0.4.5"

[dev-dependencies]
nom = "=7.1.3"
