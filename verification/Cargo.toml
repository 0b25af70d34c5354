[package]
name = "mdbook-inline-highlighting"
version = "0.1.0"
edition = "2021"
publish = false

[dependencies]
log = "=0.4.34"
mdbook-preprocessor = "=0.5.4"
pulldown-cmark = { version = "=0.13.5", default-features = false }
pulldown-cmark-to-cmark = "=22.0.3"
serde_json = "=1.0.154"
