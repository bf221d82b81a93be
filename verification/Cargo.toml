[package]
name = "wallet_ledger"
version = "0.1.0"
edition = "2021"
publish = false

[dependencies]
actix-web = "*"
diesel = { version = "*", features = ["postgres", "r2d2"] }
dotenv = "*"
r2d2 = "*"
serde = { version = "*", features = ["derive"] }
serde_json = "*"
tokio = { version = "*", features = ["macros", "rt-multi-thread"] }

[dev-dependencies]
rand = "0.8"
