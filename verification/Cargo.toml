[package]
name = "meteora"
version = "0.1.0"
edition = "2021"
publish = false

[dependencies]
bincode = "1"
serde = { version = "1", features = ["derive"] }
clap = "2"
log = "0.4"
grpcio = "0.4"
futures = "0.1"
protobuf = "2"
raft = "0.4"
rocksdb = "0.13"
