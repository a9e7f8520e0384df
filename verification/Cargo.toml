[package]
name = "wmata_fire_alarm"
version = "0.1.0"
edition = "2021"
publish = false

[dependencies]
argfile = "*"
axum = "0.8"
clap = { version = "4", features = ["derive", "env", "string"] }
clap-verbosity-flag = "3"
env_logger = "0.11"
lettre = { version = "0.11", default-features = false, features = ["builder", "hostname", "pool", "serde", "smtp-transport", "tokio1", "tokio1-rustls-tls"] }
log = "0.4"
rand = "0.9"
sea-orm = { version = "1.1", default-features = false, features = ["macros", "runtime-tokio-rustls", "sqlx-sqlite"] }
serde = { version = "1", features = ["derive"] }
thiserror = "2"
tokio = { version = "1", features = ["fs", "macros", "net", "rt-multi-thread", "sync", "time"] }
