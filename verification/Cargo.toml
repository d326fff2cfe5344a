[package]
name = "template_engine"
version = "0.1.0"
edition = "2021"
publish = false

[dependencies]
pulldown-cmark = "*"
tokio = { version = "*", features = ["fs", "rt-multi-thread", "macros"] }
tokio-postgres = "*"
