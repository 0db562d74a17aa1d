[package]
name = "offlite"
version = "0.1.0"
edition = "2021"
publish = false

[dependencies]
base64 = "=0.22.1"
chrono = { version = "=0.4.45", default-features = false, features = ["now"] }
eventsource-client = "=0.15.1"
futures = { version = "=0.3.34", default-features = false, features = ["std"] }
log = "=0.4.35"
reqwest = { version = "=0.12.28", default-features = false }
rmp-serde = "=1.3.1"
rusqlite = { version = "=0.37.0", features = ["bundled"] }
serde = { version = "1", features = ["derive"] }
serde_json = "=1.0.154"
tokio = { version = "=1.54.1", features = ["macros", "rt", "sync", "time"] }
