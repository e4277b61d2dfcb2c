[package]
name = "tikv_snap"
version = "0.1.0"
edition = "2021"
publish = false

[dependencies]
protobuf = "2.28"
thiserror = "1.0"
