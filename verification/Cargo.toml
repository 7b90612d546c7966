[package]
name = "rust_ingestion"
version = "0.1.0"
edition = "2021"
publish = false

[dependencies]
serde = { version = "*", features = ["derive"] }
serde_json = "*"
reqwest = { version = "*", default-features = false, features = ["json"] }
tokio = { version = "*", features = ["rt-multi-thread", "macros", "net", "time"] }
tokio-postgres = "*"
tokio-tungstenite = "*"
tungstenite = "*"
futures-util = "*"
actix-web = { version = "*", default-features = false, features = ["macros"] }
actix-cors = "*"
