[package]
name = "card_registry"
version = "0.1.0"
edition = "2021"
publish = false

[dependencies]
axum = "*"
config = { version = "*", default-features = false, features = ["toml"] }
http = "*"
poise = "*"
serde = { version = "*", features = ["derive"] }
sqlx = { version = "*", default-features = false, features = ["runtime-tokio", "sqlite"] }
tokio = { version = "*", features = ["macros", "rt-multi-thread", "net"] }
