[package]
name = "handins"
version = "0.1.0"
edition = "2021"
publish = false

[dependencies]
chrono = "=0.4.45"
simsearch = "=0.2.5"
clap = "=2.34.0"
reqwest = { version = "=0.12.28", default-features = false, features = ["cookies", "multipart"] }
rpassword = "=7.5.4"
select = "=0.6.1"
tokio = { version = "=1.53.2", features = ["rt-multi-thread", "macros", "fs", "io-util"] }
