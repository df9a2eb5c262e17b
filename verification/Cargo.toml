[package]
name = "csv_processor"
version = "0.1.0"
edition = "2021"
publish = false

[dependencies]
url = "2"
serde = { version = "1", features = ["derive"] }
serde_json = "1"
futures = "0.3"
tokio = { version = "1", features = ["sync", "macros", "rt-multi-thread"] }
reqwest = { version = "0.12", default-features = false }
actix-web = "4"
actix-cors = "0.7"
dotenv = "0.15"
env_logger = "0.11"
