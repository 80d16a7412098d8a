[package]
name = "dispatcher"
version = "0.1.0"
edition = "2021"
publish = false

[dependencies]
livesplit-hotkey = "=0.8.1"
toml = "=1.1.8"
serde = { version = "1", features = ["derive"] }
async_executors = { version = "=0.7.0", features = ["threadpool"] }
execute = "=0.3.0"
daemonize = "=0.5.0"
log = "0.4"
log4rs = "=1.4.0"
winapi = { version = "=0.3.9", features = ["winbase"] }
