[package]
name = "zero2prod"
version = "0.1.0"
edition = "2021"
publish = false

[dependencies]
scraper = { version = "=0.29.0", default-features = false, features = ["errors"] }
tiktoken-rs = "=0.12.1"
chrono = "=0.4.45"
uuid = { version = "=1.29.0", features = ["v4"] }
actix-web = { version = "=4.18.1", default-features = false, features = ["macros"] }
libsql = { version = "=0.10.0", default-features = false, features = ["core", "replication", "tls"] }
reqwest = { version = "=0.12.28", default-features = false, features = ["rustls-tls", "gzip", "deflate", "brotli"] }
tokio = { version = "=1.54.1", features = ["full"] }
serde = { version = "=1.0.229", features = ["derive"] }
tera = { version = "=2.4.0", default-features = false }
async-openai = { version = "=0.43.0", features = ["embedding"] }
dotenvy = "=0.15.7"
config = { version = "=0.15.27", default-features = false, features = ["yaml"] }
anyhow = "=1.0.104"
