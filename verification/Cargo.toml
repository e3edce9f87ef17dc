[package]
name = "gosim_project"
version = "0.1.0"
edition = "2021"
publish = false

[dependencies]
anyhow = "1"
async-openai = "0.18"
chrono = "0.4"
dotenv = "0.15"
flowsnet-platform-sdk = "*"
http_req = "*"
log = "0.4"
mysql_async = "*"
openai-flows = "*"
regex = "1"
reqwest = "0.11"
secrecy = "0.8"
serde = { version = "1", features = ["derive"] }
serde_json = "1"
tokio = { version = "1", features = ["macros", "rt"] }
vector-store-flows = "*"
webhook-flows = "*"
