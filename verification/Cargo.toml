[package]
name = "stela"
version = "0.1.0"
edition = "2021"
publish = false

[dependencies]
anyhow = "=1.0.104"
bytes = "=1.12.1"
chrono = "=0.4.45"
clap = { version = "=4.6.7", features = ["derive"] }
env_logger = "=0.11.11"
getrandom = "=0.3.4"
http = "=1.5.0"
http-body-util = "=0.1.5"
lithair-core = { version = "=1.21.0", features = ["admin-ui"] }
lithair-macros = "=1.21.0"
log = "=0.4.35"
pulldown-cmark = "=0.13.6"
serde = { version = "=1.0.229", features = ["derive"] }
serde_json = "=1.0.154"
tera = "=1.20.1"
tokio = { version = "=1.54.1", features = ["macros", "rt-multi-thread"] }
