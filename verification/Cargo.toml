[package]
name = "epub_optimizer"
version = "0.1.0"
edition = "2021"
publish = false

[dependencies]
zip = { version = "*", default-features = false, features = ["deflate"] }
xmltree = { version = "*", features = ["attribute-order"] }
tempfile = "*"
walkdir = "*"
