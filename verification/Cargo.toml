[package]
name = "fedora_aspace"
version = "0.1.0"
edition = "2021"
publish = false

[dependencies]
anyhow = "1"
async-stomp = "*"
futures = "0.3"
rdf = "*"
reqwest = { version = "0.12", default-features = false, features = ["json", "rustls-tls"] }
serde = { version = "1", features = ["derive"] }
serde_json = "1"
tokio = { version = "1", features = ["macros", "rt-multi-thread", "time"] }
url = "2"
uuid = { version = "1", features = ["v4"] }
