[package]
name = "nhentai_archivist"
version = "0.1.0"
edition = "2021"
publish = false

[dependencies]
chrono = "=0.4.45"
log = "0.4"
scaler = "=1.4.0"
serde = { version = "=1.0.229", features = ["derive"] }
serde_json = "=1.0.154"
serde-xml-rs = "=0.8.2"
sqlx = { version = "=0.8.6", default-features = false, features = ["sqlite", "runtime-tokio", "chrono", "derive"] }
thiserror = "=2.0.21"
zip = { version = "=9.2.2", default-features = false }
