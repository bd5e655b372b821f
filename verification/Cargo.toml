[package]
name = "midgard_history"
version = "0.1.0"
edition = "2021"
publish = false

[dependencies]
chrono = "*"
serde = { version = "*", features = ["derive"] }
mongodb = "*"
reqwest = { version = "*", default-features = false, features = ["json"] }
tokio = { version = "*", features = ["rt-multi-thread", "macros", "time"] }
futures = "*"
dotenv = "*"
actix-web = { version = "*", default-features = false, features = ["macros"] }
