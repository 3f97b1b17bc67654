[package]
name = "rivet"
version = "0.1.0"
edition = "2021"
publish = false

[dependencies]
ipnet = "=2.12.2"
anyhow = "=1.0.104"
indoc = "2"
serde = { version = "=1.0.229", features = ["derive"] }
serde_json = "=1.0.154"
uuid = { version = "=1.29.1", features = ["v4"] }
tokio = { version = "=1.54.1", features = ["process", "fs", "rt-multi-thread", "macros"] }
reqwest = { version = "=0.11.27", default-features = false }
sqlx = { version = "=0.7.4", default-features = false, features = ["postgres", "runtime-tokio", "uuid", "macros"] }
clickhouse = { version = "=0.15.3", default-features = false }
duct = "=0.13.7"
