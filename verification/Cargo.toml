[package]
name = "service_actix"
version = "0.1.0"
edition = "2021"
publish = false

[dependencies]
actix-web = "4"
actix-web-httpauth = "0.8"
chrono = "0.4"
getrandom = "0.2"
log = "0.4"
r2d2 = "0.8"
r2d2_sqlite = "*"
serde = { version = "1", features = ["derive"] }
tracing = "0.1"
tracing-actix-web = "0.7"
tracing-subscriber = { version = "0.3", features = ["env-filter"] }
