[package]
name = "eu4_parser"
version = "0.1.0"
edition = "2021"
publish = false

[dependencies]
sha2 = "*"
hex = "*"
rand = "*"
bcrypt = "*"
serde = { version = "*", features = ["derive"] }
serde_json = "*"
eu4save = "*"
sqlx = { version = "0.7", features = ["mysql", "runtime-tokio-rustls"] }
tokio = { version = "*", features = ["macros", "rt-multi-thread"] }
