[package]
name = "gpui_style_hot_reload"
version = "0.1.0"
edition = "2021"
publish = false

[dependencies]
serde_json = "=1.0.154"
anyhow = "=1.0.104"
futures = "=0.3.34"
notify = "=8.2.0"
tracing = "=0.1.44"
tracing-subscriber = "0.3"
async-compat = "=0.2.6"
