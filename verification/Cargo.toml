[package]
name = "jd_crawler"
version = "0.1.0"
edition = "2021"
publish = false

[dependencies]
csv = "=1.4.0"
headless_chrome = "=0.9.0"
rand = "=0.9.5"
rayon = "=1.12.0"
regex = "=1.13.1"
scraper = "=0.29.0"
serde = { version = "=1.0.229", features = ["derive"] }
