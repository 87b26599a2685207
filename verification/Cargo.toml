[package]
name = "sage_pharmacy"
version = "0.1.0"
edition = "2021"
publish = false

[dependencies]
actix-cors = "0.7"
actix-web = "4"
chrono = { version = "0.4", default-features = false, features = ["std", "serde"] }
dotenvy = "0.15"
serde = { version = "1", features = ["derive"] }
sqlx = { version = "0.8", default-features = false, features = ["postgres", "runtime-tokio", "chrono", "derive"] }
