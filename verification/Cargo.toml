[package]
name = "pastebin"
version = "0.1.0"
edition = "2021"
publish = false

[dependencies]
sha2 = "*"
mongodb = "*"
actix-web = "*"
dotenv = "*"
futures = "*"
serde = { version = "*", features = ["derive"] }
