[package]
name = "wholesale_pricing"
version = "0.1.0"
edition = "2021"
publish = false

[dependencies]
shopify_function = "*"
