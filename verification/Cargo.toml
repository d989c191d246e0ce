[package]
name = "pinnacle_cypat"
version = "1.8.0"
edition = "2021"
publish = false

[dependencies]
scraper = "*"
ego-tree = "*"
regex = "*"
tokio = { version = "1", features = ["full"] }
async-trait = "*"
indicatif = "*"
