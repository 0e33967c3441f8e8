[package]
name = "event_store"
version = "0.1.0"
edition = "2021"
publish = false

[dependencies]
anyhow = "1"
bytes = "1"
cadence = "1"
log = "0.4"
protobuf = { version = "3", features = ["with-bytes"] }
sqlx = { version = "0.8", default-features = false, features = ["postgres", "runtime-tokio"] }
warp = { version = "0.3", default-features = false }
