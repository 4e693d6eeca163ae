[package]
name = "epub_parser"
version = "0.1.0"
edition = "2021"
publish = false

[dependencies]
quick-xml = { version = "0.31", features = ["serialize"] }
scraper = "0.19"
serde = { version = "1", features = ["derive"] }
thiserror = "1"
zip = { version = "0.6", default-features = false, features = ["deflate"] }
