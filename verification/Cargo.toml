[package]
name = "pgbr"
version = "0.1.0"
edition = "2021"
publish = false

[dependencies]
bzip2-sys = "0.1"
libz-sys = "1.1"
lz4-sys = "1"
serde_json = "1"
zstd-sys = "2"
