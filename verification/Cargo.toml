[package]
name = "nadi_md"
version = "0.1.0"
edition = "2021"
publish = false

[dependencies]
anyhow = "=1.0.104"
gag = "=1.0.0"
mdbook-markdown = "=0.5.4"
nadi_core = { version = "=0.8.1", features = ["all"] }
pulldown-cmark = "=0.13.6"
