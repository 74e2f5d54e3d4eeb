[package]
name = "gpui_mobile"
version = "0.1.0"
edition = "2021"
publish = false

[dependencies]
uuid = { version = "1", features = ["v5"] }
ndk = "0.9"
parking_lot = "0.12"
log = "0.4"
anyhow = "1"
