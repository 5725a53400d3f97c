[package]
name = "rssbot"
version = "0.1.0"
edition = "2021"
publish = false

[dependencies]
pinyin-order = "=0.1.2"
telebot = "=0.2.10"
tokio-core = "=0.1.18"
tokio-curl = "=0.1.11"
futures = "=0.1.31"
log = "=0.4.35"
env_logger = "=0.4.3"
failure = "=0.1.8"
