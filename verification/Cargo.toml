[package]
name = "chat_ledger"
version = "0.1.0"
edition = "2021"
publish = false

[dependencies]
sqlx = { version = "*", default-features = false, features = ["runtime-tokio", "sqlite"] }
tokio = { version = "*", features = ["rt-multi-thread", "macros"] }
dotenv = "*"
log = "*"
pretty_env_logger = "*"
