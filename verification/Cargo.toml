[package]
name = "restaurant_pos"
version = "0.1.0"
edition = "2021"
publish = false

[dependencies]
actix = "0.13"
actix-cors = "*"
actix-web = "4"
chrono = { version = "0.4", features = ["serde"] }
diesel = { version = "2", features = ["postgres", "r2d2", "chrono"] }
dotenv = "0.15"
futures = "0.3"
redis = "*"
serde = { version = "1", features = ["derive"] }
serde_json = "1"
