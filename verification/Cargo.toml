[package]
name = "data_flow_rs"
version = "0.1.0"
edition = "2021"
publish = false

[dependencies]
tokio = { version = "1", features = ["full"] }
tokio-stream = { version = "0.1", features = ["sync"] }
futures = "0.3"
anyhow = "1"
colored = "2"
dotenv = "0.15"
async-std = "1"
serde = { version = "1", features = ["derive"] }
ethers = { version = "2", default-features = false, features = ["ws"] }
