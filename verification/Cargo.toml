[package]
name = "ievr_dataminer"
version = "0.1.0"
edition = "2021"
publish = false

[dependencies]
rusqlite = { version = "*", features = ["bundled"] }
crossbeam = "*"
memmap2 = "*"
regex = "*"
toml = "*"
