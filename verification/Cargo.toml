[package]
name = "clyde"
version = "0.1.0"
edition = "2021"
publish = false

[dependencies]
rls-analysis = "*"
rls-span = "*"
