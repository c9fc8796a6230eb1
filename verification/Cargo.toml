[package]
name = "movie_shorts"
version = "0.1.0"
edition = "2021"
publish = false

[dependencies]
serde_json = "1"
anyhow = "1"
rand = "0.8"
reqwest = { version = "0.12", default-features = false, features = ["cookies"] }
tokio = { version = "1", default-features = false, features = ["fs", "process", "rt-multi-thread", "macros", "io-util"] }
walkdir = "2"
zip = { version = "2", default-features = false }
