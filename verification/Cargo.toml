[package]
name = "url_shortener"
version = "0.1.0"
edition = "2021"
publish = false

[dependencies]
sha2 = "0.10"
base32 = "0.4"
hex = "0.4"
async-trait = "0.1"
aws-config = "1"
aws-sdk-dynamodb = "1"
tokio = { version = "1", features = ["rt-multi-thread"] }
