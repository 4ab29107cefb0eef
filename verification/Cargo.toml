[package]
name = "mailbox"
version = "0.1.0"
edition = "2021"
publish = false

[dependencies]
actix-web = { version = "=4.18.1", default-features = false, features = ["macros"] }
anyhow = "=1.0.104"
chrono = { version = "=0.4.45", features = ["serde"] }
chrono-humanize = "=0.2.3"
clap = { version = "=4.6.7", default-features = false, features = ["std", "derive", "env", "help", "usage", "error-context"] }
colored = "=2.2.0"
crossterm = { version = "=0.29.0", default-features = false, features = ["events"] }
csv = "=1.4.0"
directories = "=6.0.0"
form_urlencoded = "=1.2.2"
futures = "=0.3.34"
linkify = "=0.10.0"
ratatui = { version = "=0.30.2", default-features = false, features = ["crossterm"] }
reqwest = { version = "=0.12.28", default-features = false, features = ["json"] }
sea-query = { version = "=0.32.7", features = ["attr"] }
sea-query-binder = { version = "=0.7.0", features = ["sqlx-sqlite", "with-chrono"] }
serde = { version = "=1.0.229", features = ["derive"] }
serde_json = "=1.0.154"
sigpipe = "=0.1.3"
sqlx = { version = "=0.8.6", default-features = false, features = ["sqlite", "runtime-tokio", "chrono"] }
tokio = { version = "=1.54.1", features = ["rt-multi-thread", "macros", "sync"] }
toml = "=0.8.23"
unicode-width = "=0.2.2"
webbrowser = "=1.2.5"
