[package]
name = "faultybot"
version = "0.1.0"
edition = "2021"
publish = false

[dependencies]
chrono = "=0.4.45"
futures = "=0.3.34"
humantime = "=2.4.0"
poise = "=0.6.2"
sea-orm = { version = "=1.1.20", default-features = false, features = ["macros", "runtime-tokio-rustls", "sqlx-postgres", "with-chrono"] }
serenity = "=0.12.5"
thiserror = "=1.0.69"
tokio = { version = "=1.54.1", features = ["macros", "rt-multi-thread", "signal"] }
tracing = "=0.1.44"
