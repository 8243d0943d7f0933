[package]
name = "ws_lobby"
version = "0.1.0"
edition = "2021"
publish = false

[dependencies]
uuid = { version = "*", features = ["v4"] }
actix = "*"
actix-web = "*"
actix-web-actors = "*"
