[package]
name = "paged_vfs"
version = "0.1.0"
edition = "2021"
publish = false

[dependencies]
ic-stable-structures = "*"
rand = "*"
rusqlite = { version = "*", features = ["bundled"] }
sqlite-vfs = "*"
ic-wasi-polyfill = "*"
