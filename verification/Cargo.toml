[package]
name = "galactic_trader"
version = "0.1.0"
edition = "2021"
publish = false

[dependencies]
chrono = "=0.4.45"
chrono-tz = "=0.10.4"
serde = { version = "=1.0.229", features = ["derive"] }
serde_json = "=1.0.154"
tokio = { version = "=1.54.1", features = ["full"] }
futures = "=0.3.34"
async-trait = "=0.1.92"
apca = "=0.30.0"
num-decimal = { version = "=0.2.5", default-features = false, features = ["num-v04", "serde"] }
http-endpoint = "=0.6.0"
http = "=1.5.0"
sqlx = { version = "=0.8.6", default-features = false, features = ["postgres", "runtime-tokio", "chrono", "json", "macros"] }
tracing = "=0.1.44"
tracing-subscriber = { version = "=0.3.23", features = ["env-filter"] }
tracing-appender = "=0.2.5"
ratatui = "=0.29.0"
crossterm = "=0.28.1"
csv = "=1.4.0"
dotenvy = "=0.15.7"
ta = "=0.5.0"
