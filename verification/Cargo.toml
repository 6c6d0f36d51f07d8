[package]
name = "crawly_search"
version = "0.1.0"
edition = "2021"
publish = false

[dependencies]
url = "*"
robotstxt = "*"
scraper = "*"
infer = "*"
indexmap = "*"
tantivy = "*"
tempfile = "*"
reqwest = { version = "*", default-features = false, features = ["blocking"] }
