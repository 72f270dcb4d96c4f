[package]
name = "most_important_deps"
version = "0.1.0"
edition = "2021"
publish = false

[dependencies]
anyhow = "=1.0.104"
env_logger = "=0.11.11"
log = "=0.4.34"
reqwest = "=0.13.5"
reqwest-middleware = "=0.5.2"
reqwest-retry = "=0.9.1"
select = "=0.6.1"
tokio = { version = "=1.53.2", features = ["macros", "rt-multi-thread", "time", "sync", "fs", "io-util"] }
wg = { version = "=1.1.0", features = ["future"] }
