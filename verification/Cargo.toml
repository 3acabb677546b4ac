[package]
name = "catalog_gateway"
version = "0.1.0"
edition = "2021"
publish = false

[dependencies]
serde = { version = "=1.0.229", features = ["derive"] }
serde_json = { version = "=1.0.154", features = ["arbitrary_precision"] }
url = "=2.5.8"
hex = "=0.4.3"
rand = "=0.8.8"
chrono = "=0.4.45"
urlencoding = "=2.1.3"
indicium = "=0.6.10"
kstring = "=2.0.2"
tokio = { version = "=1.54.1", features = ["sync"] }
async-trait = "=0.1.92"
reqwest = { version = "=0.12.28", default-features = false, features = ["rustls-tls"] }
actix-web = "=4.18.1"
actix-cors = "=0.7.2"
actix-web-httpauth = "=0.8.3"
sea-orm = { version = "=2.0.4", default-features = false, features = ["macros", "sqlx-sqlite", "runtime-tokio"] }
sea-orm-migration = { version = "=2.0.4", default-features = false, features = ["sqlx-sqlite", "runtime-tokio"] }
