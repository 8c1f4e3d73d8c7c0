[package]
name = "chat-system"
version = "0.1.0"
edition = "2021"
publish = false

[dependencies]
pulldown-cmark = "=0.12.2"
serde = { version = "=1.0.229", features = ["derive"] }
serde_json = "=1.0.154"
tokio = { version = "=1.54.1", features = ["full"] }
async-trait = "=0.1.92"
anyhow = "=1.0.104"
chrono = "=0.4.45"
urlencoding = "=2.1.3"
futures = "=0.3.34"
tracing = "=0.1.44"
typetag = "=0.2.23"
reqwest = { version = "=0.12.28", default-features = false, features = ["json", "rustls-tls"] }
tokio-tungstenite = { version = "=0.26.2", features = ["rustls-tls-webpki-roots"] }
rustls = { version = "=0.23.46", default-features = false, features = ["ring", "std", "tls12", "logging"] }
tokio-rustls = { version = "=0.26.6", default-features = false, features = ["ring", "tls12", "logging"] }
rusqlite = { version = "=0.32.1", features = ["bundled"] }
webpki-roots = "=1.0.10"
