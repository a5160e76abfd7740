[package]
name = "central_api_lib"
version = "0.1.0"
edition = "2021"
publish = false

[dependencies]
linked-hash-map = "0.5"
sha2 = "0.10"
rand = "0.8"
serde = { version = "1", features = ["derive"] }
serde_json = "1"
actix = "0.13"
actix-web = "4"
actix-web-actors = "4"
tokio = { version = "1", features = ["full"] }
futures = "0.3"
async-stream = "0.3"
async-trait = "0.1"
log = "0.4"
pretty_env_logger = "0.4"
dotenv = "0.15"
diesel = { version = "2", features = ["sqlite", "r2d2"] }
diesel_migrations = "2"
