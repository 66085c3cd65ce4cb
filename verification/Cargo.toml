[package]
name = "bulk_load"
version = "0.1.0"
edition = "2021"
publish = false

[dependencies]
itertools = "0.10"
rayon = "1.5"
clap = "3.2"
reqwest = { version = "0.11", features = ["json"] }
tokio = { version = "1", features = ["fs", "io-std", "io-util", "macros", "rt-multi-thread"] }
async-trait = "0.1"
serde_json = "1"
