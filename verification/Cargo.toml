[package]
name = "axtell_server"
version = "0.1.0"
edition = "2021"
publish = false

[dependencies]
base64 = "0.22"
anyhow = "1"
chrono = "0.4"
dotenvy = "0.15"
futures = "0.3"
async-lock = "3"
diesel = { version = "2", default-features = false, features = ["postgres_backend", "chrono"] }
diesel-async = { version = "0.5", features = ["postgres", "deadpool"] }
actix-web = { version = "4", default-features = false, features = ["macros"] }
