[package]
name = "workshop"
version = "0.1.0"
edition = "2021"
publish = false

[dependencies]
async-trait = "*"
futures-util = "*"
regex-syntax = "*"
scraper = "*"
serde_json = "1"
thiserror = "*"
url = "2"
