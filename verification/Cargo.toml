[package]
name = "electrode"
version = "0.1.0"
edition = "2021"
publish = false

[dependencies]
anyhow = "1"
axum = { version = "0.8", default-features = false, features = ["ws", "http1", "tokio"] }
clap = { version = "4", default-features = false, features = ["std", "help", "derive", "env"] }
flatbuffers = "=25.12.19"
futures-util = { version = "0.3", default-features = false, features = ["sink", "std"] }
serde = { version = "1", features = ["derive"] }
serde_json = "=1.0.154"
sha2 = "=0.10.9"
synapse_fbs = "=0.7.0"
thiserror = "2"
tokio = { version = "1", features = ["macros", "rt-multi-thread", "sync", "time"] }
tracing = "0.1"
zenoh = { version = "1", default-features = false, features = ["transport_udp"] }
