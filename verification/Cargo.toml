[package]
name = "db_mocker"
version = "0.1.0"
edition = "2021"
publish = false

[dependencies]
anyhow = "*"
async-trait = "*"
color-eyre = "*"
sqlx = { version = "*", default-features = false, features = ["mysql", "runtime-tokio"] }
tokio = { version = "*", default-features = false, features = ["macros", "rt-multi-thread"] }
tracing = "*"
tracing-subscriber = "*"
