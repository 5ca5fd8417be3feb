[package]
name = "portfolio_gen"
version = "0.1.0"
edition = "2021"
publish = false

[dependencies]
gray_matter = { version = "=0.3.2", features = ["toml"] }
pulldown-cmark = "=0.13.4"
