[package]
name = "twicbook_builder"
version = "0.1.0"
edition = "2021"
publish = false

[dependencies]
anyhow = "1"
clap = { version = "4", features = ["derive"] }
dashmap = "6"
pgn-reader = "0.26"
shakmaty = "0.27"
walkdir = "2"
zstd = "0.13"
