[package]
name = "ntfs_sds_parser"
version = "0.1.0"
edition = "2021"
publish = false

[dependencies]
serde = { version = "=1.0.229", features = ["derive"] }
serde_json = "=1.0.151"
winstructs = "=0.3.2"
