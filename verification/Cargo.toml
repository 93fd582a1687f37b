[package]
name = "workspace_service"
version = "0.1.0"
edition = "2021"
publish = false

[dependencies]
anyhow = "1"
async-graphql = "7.2.1"
async-graphql-tide = "7.2.1"
async-std = "1.13"
chrono = "0.4"
sqlx = { version = "0.8.6", default-features = false, features = ["postgres", "runtime-async-std", "uuid", "chrono"] }
tide = { version = "0.16.0", default-features = false, features = ["h1-server"] }
url = "2"
uuid = { version = "1", features = ["v4"] }
