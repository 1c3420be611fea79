[package]
name = "prosic"
version = "1.0.0"
edition = "2021"
publish = false

[dependencies]
bio = "=0.24.0"
clap = "=2.34.0"
csv = "=1.4.0"
fern = "=0.7.1"
itertools = "=0.15.0"
libprosic = "=0.7.3"
log = "=0.4.34"
rust-htslib = "=0.22.0"
serde_json = "=1.0.154"
