[package]
name = "checksum"
version = "0.1.0"
edition = "2021"
publish = false

[dependencies]
blake3 = { version = "=1.8.7", features = ["mmap"] }
clap = { version = "=4.6.7", features = ["derive", "env"] }
digest = "=0.11.3"
hashbrown = "=0.17.1"
md-5 = "=0.11.0"
owo-colors = "=4.4.0"
rayon = "=1.12.0"
sha1 = "=0.11.0"
sha2 = "=0.11.0"
walkdir = "=2.5.0"

[dev-dependencies]
tempfile = "=3.27.0"
