[package]
name = "indexer_core"
version = "0.1.0"
edition = "2021"
publish = false

[dependencies]
near-primitives-core = "=0.37.4"
borsh = "=1.8.1"
sqlx = { version = "=0.9.0", default-features = false, features = ["postgres", "runtime-tokio", "time"] }
time = "=0.3.55"
