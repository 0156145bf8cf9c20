[package]
name = "ruvector-swarm"
version = "0.1.0"
edition = "2021"
publish = false

[dependencies]
bincode = "1"
chrono = { version = "0.4", features = ["serde"] }
ed25519-dalek = { version = "2", features = ["rand_core"] }
hnsw_rs = "0.3"
rand = "0.8"
serde = { version = "1", features = ["derive"] }
serde_json = "1"
thiserror = "1"
uuid = { version = "1", features = ["v4", "serde"] }
