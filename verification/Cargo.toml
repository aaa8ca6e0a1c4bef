[package]
name = "ua_dao"
version = "0.1.0"
edition = "2021"
publish = false

[dependencies]
sqlx = { version = "0.6", default-features = false, features = ["runtime-tokio-rustls", "postgres", "mysql"] }
