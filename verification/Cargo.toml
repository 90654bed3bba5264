[package]
name = "jomp16_bot_own"
version = "0.1.0"
edition = "2021"
publish = false

[dependencies]
anyhow = "1"
async-dup = "1"
async-io = "1"
async-native-tls = "0.3"
base64 = "0.13"
chrono = "0.4"
dns-lookup = "1"
futures = "0.3"
log = "0.4"
maxminddb = "0.17"
pretty_env_logger = "0.4"
regex = "1"
serde = { version = "1", features = ["derive"] }
serde_yaml = "0.8"
simple-irc = "*"
smol = "0.1"
