[package]
name = "ah_scraper"
version = "0.1.0"
edition = "2021"
publish = false

[dependencies]
base64 = "*"
flate2 = "*"
serde_json = "*"
serde = { version = "*", features = ["derive"] }
serde_with = "*"
reqwest = { version = "*", default-features = false, features = ["json"] }
tokio = { version = "*", features = ["rt-multi-thread", "macros", "time"] }
diesel = { version = "*", features = ["postgres_backend", "64-column-tables"] }
diesel-async = { version = "*", features = ["postgres", "bb8"] }
dotenvy = "*"
env_logger = "*"

[dev-dependencies]
fastnbt = "*"
