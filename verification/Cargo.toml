[package]
name = "pg_search_scan"
version = "0.1.0"
edition = "2021"
publish = false

[dependencies]
pgrx = { version = "0.15.0", features = ["pg17"] }
tantivy = "0.24"
