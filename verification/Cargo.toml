[package]
name = "timevote"
version = "0.1.0"
edition = "2021"
publish = false

[dependencies]
bincode = "=1.3.3"
chrono = "=0.4.45"
dashmap = "=6.2.1"
ed25519-dalek = "=2.2.0"
hex = "=0.4.3"
parking_lot = "=0.12.5"
rand = "=0.8.8"
sha2 = "=0.10.9"
sled = "=0.34.7"
thiserror = "=1.0.69"
tokio = { version = "=1.54.1", features = ["rt-multi-thread", "macros", "sync", "time", "net", "io-util"] }
tracing = "=0.1.44"
