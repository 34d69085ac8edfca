[package]
name = "sieve"
version = "0.1.0"
edition = "2021"
publish = false

[dependencies]
mail-parser = "=0.11.9"
mail-builder = "=0.4.4"
