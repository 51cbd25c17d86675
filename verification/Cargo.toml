[package]
name = "engine"
version = "0.1.0"
edition = "2021"
publish = false

[dependencies]
chess = "=3.2.0"
chashmap = "=2.2.2"
rand = "=0.8.8"
rayon = "=1.12.0"
log = "=0.4.34"
env_logger = "=0.11.11"
dotenv = "=0.15.0"
serde = { version = "=1.0.229", features = ["derive"] }
serde_json = "=1.0.154"
tokio = { version = "=1.54.1", features = ["rt-multi-thread", "macros", "time"] }
reqwest = { version = "=0.11.27", default-features = false, features = ["rustls-tls"] }
shakmaty = "=0.26.0"
