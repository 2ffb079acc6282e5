[package]
name = "chat_queue"
version = "0.1.0"
edition = "2021"
publish = false

[dependencies]
dotenv = "=0.15.0"
env_logger = "=0.11.11"
futures = "=0.3.34"
log = "=0.4.34"
redis = "=1.8.0"
telegram-bot = "=0.8.0"
tokio = { version = "=0.2.25", features = ["macros", "rt-threaded"] }
