[package]
name = "weathervane"
version = "0.1.0"
edition = "2021"
publish = false

[dependencies]
anyhow = "*"
async-stream = "*"
axum = "*"
axum-htmx = "*"
cityhasher = "*"
futures-util = "*"
hickory-resolver = "*"
minijinja = "*"
reqwest = { version = "*", default-features = false, features = ["json"] }
scraper = "*"
serde = { version = "*", features = ["derive"] }
serde_json = "*"
tokio = { version = "*", features = ["macros", "rt-multi-thread", "sync", "signal", "net", "time"] }
tokio-util = { version = "*", features = ["rt"] }
url = "*"
