[package]
name = "catalog"
version = "0.1.0"
edition = "2021"
publish = false

[dependencies]
actix-web = "3"
base64 = "=0.13.1"
chrono = { version = "=0.4.45", features = ["serde"] }
diesel = { version = "1.4", features = ["postgres", "r2d2", "chrono", "uuidv07"] }
dotenv = "0.15"
elasticsearch = "7.10.0-alpha.1"
env_logger = "0.8"
futures = "=0.3.34"
log = "=0.4.34"
percent-encoding = "=2.3.2"
r2d2 = "0.8"
reqwest = { version = "0.10", features = ["json"] }
rmp-serde = "=1.3.1"
serde = { version = "=1.0.229", features = ["derive"] }
serde_json = "=1.0.154"
thiserror = "=1.0.69"
uuid = { version = "=0.8.2", features = ["serde", "v4", "v5"] }
