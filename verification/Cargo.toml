[package]
name = "tracing-android"
version = "0.2.0"
edition = "2021"
publish = false

[dependencies]
android_log-sys = "0.3"
tracing = "0.1"
tracing-subscriber = { version = "0.3", default-features = false, features = ["registry"] }
