[package]
name = "emm"
version = "0.1.0"
edition = "2021"
publish = false

[dependencies]
sha1 = "0.10"
sha2 = "0.10"
murmur2 = "*"
lazy-regex = "*"
serde = { version = "1", features = ["derive"] }
serde_json = "1"
toml = "*"
reqwest = { version = "0.12", default-features = false, features = ["json"] }
tokio = { version = "1", features = ["rt-multi-thread", "macros"] }
zip = { version = "*", default-features = false, features = ["deflate"] }
walkdir = "2"
path-clean = "*"
supports-hyperlinks = "*"
clap = { version = "4", features = ["derive"] }
