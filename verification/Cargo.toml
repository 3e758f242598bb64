[package]
name = "forum_stream"
version = "0.1.0"
edition = "2021"
publish = false

[dependencies]
anyhow = "1"
async-trait = "0.1"
chrono = { version = "0.4", default-features = false, features = ["std"] }
html2md = "0.2"
http = "1"
once_cell = "1"
pulsar = { version = "6", default-features = false, features = ["tokio-runtime"] }
regex = "1"
reqwest = { version = "0.12", default-features = false, features = ["json", "cookies"] }
reqwest-middleware = "0.4"
scraper = "0.29"
serde = { version = "1", features = ["derive"] }
serde_json = "1"
serenity = { version = "0.12", default-features = false, features = ["builder", "model"] }
sqlx = { version = "0.8", default-features = false, features = ["postgres", "runtime-tokio"] }
tokio = { version = "1", default-features = false, features = ["sync"] }
url = "2"
