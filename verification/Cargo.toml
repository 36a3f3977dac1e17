[package]
name = "laoflchdb"
version = "0.1.0"
edition = "2021"
publish = false

[dependencies]
sha2 = "0.10"
hmac = "0.12"
hex = "0.4"
urlencoding = "2"
time = { version = "0.3", features = ["formatting"] }
chrono = "0.4"
uuid = { version = "1", features = ["v4"] }
snowflake_me = "*"
tokenizers = { version = "*", default-features = false, features = ["onig"] }
serde = { version = "1", features = ["derive"] }
serde_json = "1"
quick-xml = { version = "*", features = ["serialize"] }
axum = "0.7"
tokio = { version = "1", features = ["rt-multi-thread", "macros", "net"] }
clap = { version = "4", features = ["derive"] }
