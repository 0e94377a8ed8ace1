[package]
name = "chess_engine"
version = "0.1.0"
edition = "2021"
publish = false

[dependencies]
dashmap = "5"
rayon = "1"
tokio = { version = "1", features = ["full"] }
futures = "0.3"
mongodb = "2"
dotenv = "0.15"
