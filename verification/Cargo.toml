[package]
name = "remail_smtp"
version = "0.1.0"
edition = "2021"
publish = false

[dependencies]
email_address = { version = "=0.2.9", default-features = false }
tokio = { version = "=1.54.1", features = ["io-util", "macros", "net", "rt-multi-thread", "signal", "sync"] }
sqlx = { version = "=0.8.6", default-features = false, features = ["postgres", "runtime-tokio", "uuid"] }
