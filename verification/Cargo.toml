[package]
name = "vidlib"
version = "0.1.0"
edition = "2021"
rust-version = "1.95"
publish = false

[dependencies]
xxhash-rust = { version = "=0.8.19", features = ["xxh3"] }
slab_tree = "=0.3.2"
serde = { version = "1", features = ["derive"] }
anyhow = "1"
log = "0.4"
tokio = { version = "1", features = ["sync"] }
rusqlite = { version = "0.40", features = ["bundled"] }
rsmpeg = "*"
gstreamer = "0.23"
opener = "*"
native-dialog = "*"
derive_builder = "0.20"
