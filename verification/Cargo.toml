[package]
name = "sysy_backend"
version = "0.1.0"
edition = "2021"
publish = false

[dependencies]
koopa = { version = "=0.0.10", features = ["no-front-logger"] }
lalrpop-util = "=0.23.2"
