[package]
name = "codie"
version = "0.1.0"
edition = "2021"
publish = false

[dependencies]
anyhow = "1"
futures = "0.3"
log = "0.4"
once_cell = "1"
regex = "1"
serde = { version = "1", features = ["derive"] }
serenity = "0.10"
shiplift = { version = "0.7", default-features = false }
sled = "0.34"
tempfile = "3"
tokio = { version = "1", features = ["macros", "rt-multi-thread", "time", "sync", "fs", "io-util"] }
toml = "*"
tracing = "0.1"
tracing-log = "*"
tracing-subscriber = { version = "*", features = ["env-filter", "fmt"] }
