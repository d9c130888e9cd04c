[package]
name = "card_platform"
version = "0.1.0"
edition = "2021"
publish = false

[dependencies]
bcrypt = "*"
jsonwebtoken = "9"
rand = "0.8"
chrono = "0.4"
actix-web = "4"
actix-cors = "*"
actix-files = "*"
mongodb = "2"
futures = "0.3"
serde = { version = "1", features = ["derive"] }
serde_json = "1"
dotenv = "*"
thiserror = "*"
