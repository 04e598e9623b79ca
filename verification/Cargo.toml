[package]
name = "hybrid-indexer"
version = "0.1.0"
edition = "2021"
publish = false

[dependencies]
hex = "0.4.3"
serde = { version = "1", features = ["derive"] }
parity-scale-codec = { version = "3", features = ["derive"] }
tokio = { version = "1", features = ["sync", "macros", "rt-multi-thread", "time"] }
futures = "0.3.34"
sled = "0.34.7"
subxt = { version = "0.29", default-features = false, features = ["jsonrpsee-ws"] }
