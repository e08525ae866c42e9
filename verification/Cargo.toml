[package]
name = "auth_core"
version = "0.1.0"
edition = "2021"
publish = false

[dependencies]
actix-web = { version = "4", default-features = false, features = ["macros", "cookies"] }
argon2 = "0.5"
chrono = { version = "0.4", default-features = false, features = ["clock"] }
deadpool-postgres = "*"
dotenvy = "0.15"
jsonwebtoken = { version = "9", default-features = false }
rand = "0.8"
serde = { version = "1", features = ["derive"] }
serde_json = { version = "1", features = ["preserve_order"] }
thiserror = "1"
tokio-postgres = "0.7"
uuid = { version = "1", features = ["v4"] }

[dev-dependencies]
regex = "1"
