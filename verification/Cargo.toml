[package]
name = "gdrs_parse"
version = "0.1.0"
edition = "2021"
publish = false

[dependencies]
clang = { version = "=2.1.0", features = ["runtime", "clang_3_9"] }
docopt = "=1.1.1"
glob = "=0.3.4"
serde = { version = "=1.0.229", features = ["derive"] }
serde_derive = "=1.0.229"
serde_json = "=1.0.151"
