[package]
name = "endeavor"
version = "0.1.0"
edition = "2021"
publish = false

[dependencies]
chrono = "=0.4.45"
clap = { version = "=4.6.7", features = ["derive"] }
color-eyre = "=0.6.5"
csv = "=1.4.0"
inquire = "=0.9.4"
reqwest = { version = "=0.13.5", default-features = false, features = ["cookies", "form"] }
reqwest_cookie_store = "=0.10.0"
scraper = "=0.27.0"
serde = { version = "=1.0.229", features = ["derive"] }
serde_json = "=1.0.151"
tokio = { version = "=1.53.2", features = ["macros", "rt-multi-thread"] }
