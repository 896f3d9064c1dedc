[package]
name = "weechat_discord"
version = "0.1.0"
edition = "2021"
publish = false

[dependencies]
crossbeam-channel = "0.4"
dirs = "2"
indexmap = "1"
lazy_static = "1"
parking_lot = "0.10"
regex = "1"
serenity = "0.8"
weechat = "*"
