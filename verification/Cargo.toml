[package]
name = "fshasher"
version = "0.1.0"
edition = "2021"
publish = false

[dependencies]
blake3 = { version = "1", features = ["pure"] }
bstorage = "*"
dirs = "5"
glob = "0.3"
log = "0.4"
memmap2 = "0.9"
serde = { version = "1", features = ["derive"] }
sha2 = "0.10"
thiserror = "1"

[dev-dependencies]
uuid = { version = "1", features = ["v4"] }
