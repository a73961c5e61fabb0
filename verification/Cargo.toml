[package]
name = "git_relations"
version = "0.1.0"
edition = "2021"
publish = false

[dependencies]
chrono = "0.4"
git2 = { version = "0.14", default-features = false }
itertools = "0.10"
rusqlite = { version = "0.28", features = ["bundled", "chrono", "vtab"] }
