[package]
name = "mailcross"
version = "0.1.0"
edition = "2021"
publish = false

[dependencies]
imap = { version = "=2.4.1", default-features = false }
keyring = { version = "=3.6.3", default-features = false }
tokio = { version = "=1.53.2", features = ["rt-multi-thread", "sync", "macros", "time"] }
