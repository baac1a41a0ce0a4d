[package]
name = "card_combat"
version = "0.1.0"
edition = "2021"
publish = false

[dependencies]
rand = "0.8"
backtrace = "0.3"
termion = "1"
tui = { version = "0.19", default-features = false, features = ["termion"] }
