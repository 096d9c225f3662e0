[package]
name = "alis_bot_rs"
version = "0.1.0"
edition = "2021"
publish = false

[dependencies]
glob = "=0.3.4"
irc = { version = "=1.1.0", default-features = false, features = ["ctcp", "toml_config"] }
tokio = { version = "*", features = ["full"] }
futures = "*"
log = "*"
env_logger = "*"
