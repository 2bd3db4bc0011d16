[package]
name = "archipelag"
version = "0.1.0"
edition = "2021"
publish = false

[dependencies]
anyhow = "1"
async-nats = "*"
clap = { version = "4", features = ["derive", "env"] }
clap_complete = "4"
colored = "*"
eventsource-stream = "*"
futures = "0.3"
reqwest = { version = "0.12", default-features = false, features = ["json", "stream", "rustls-tls"] }
serde = { version = "1", features = ["derive"] }
serde_json = "1"
tokio = { version = "1", features = ["macros", "rt-multi-thread", "io-std"] }
dirs = "*"
toml = "*"
