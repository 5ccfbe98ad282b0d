[package]
name = "mdbook_toc"
version = "0.1.0"
edition = "2021"
publish = false

[dependencies]
mdbook = { version = "0.4", default-features = false }
pulldown-cmark = "0.9"
pulldown-cmark-to-cmark = "10"
