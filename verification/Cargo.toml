[package]
name = "liplayerpro"
version = "0.1.0"
edition = "2021"
publish = false

[dependencies]
fuzzy-matcher = "0.3"
shellexpand = "3"
serde = { version = "1", features = ["derive"] }
serde_json = "1"
toml = "0.8"
ratatui = "0.28"
crossterm = "0.28"
crossbeam-channel = "0.5"
alsa = "0.9"
ringbuf = "0.3"
notify = "6"
tantivy = { version = "0.22", default-features = false, features = ["mmap"] }
walkdir = "2"
rayon = "1"
