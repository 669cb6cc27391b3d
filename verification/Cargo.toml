[package]
name = "tackd"
version = "0.1.0"
edition = "2021"
publish = false

[dependencies]
async-trait = "0.1"
axum = "0.6"
azure_core = "0.11"
azure_storage = "0.11"
azure_storage_blobs = "0.11"
blake2 = "0.10"
bson = { version = "2", features = ["chrono-0_4"] }
chrono = "0.4"
clap = { version = "3", features = ["cargo", "env"] }
cloud-storage = "0.11"
enum_dispatch = "0.3"
env_logger = "0.10"
futures = "0.3"
headers = "0.3"
hex = "0.4"
hyper = "0.14"
infer = "*"
log = "0.4"
mongodb = "2"
ms-converter = "1"
orion = "0.17"
rand = "0.8"
serde = { version = "1", features = ["derive"] }
serde_bytes = "0.11"
serde_json = "1"
serde_urlencoded = "0.7"
tokio = { version = "1", features = ["full"] }
tower-http = { version = "0.4", features = ["limit", "trace"] }
uuid = { version = "1", features = ["v4"] }
