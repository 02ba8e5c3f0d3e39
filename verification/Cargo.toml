[package]
name = "gmo_sync"
version = "0.1.0"
edition = "2021"
publish = false

[dependencies]
chrono = "=0.4.45"
hex = "=0.4.3"
ring = "=0.17.14"
clap = "4"
csv = "1"
dotenv = "0.15"
gcp-bigquery-client = "=0.28.0"
reqwest = { version = "0.12", features = ["json"] }
serde = { version = "1", features = ["derive"] }
serde_json = "1"
tokio = { version = "1", features = ["macros", "rt-multi-thread", "time"] }
