[package]
name = "sawtooth_raft"
version = "0.1.0"
edition = "2021"
publish = false

[dependencies]
clap = "2"
log = "0.4"
protobuf = "2"
raft = "0.3"
sawtooth-sdk = "*"
serde_json = "1"
simple_logger = "*"
