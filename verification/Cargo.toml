[package]
name = "zero_ui_core"
version = "0.1.0"
edition = "2021"
publish = false

[dependencies]
linear-map = "=1.2.0"
serde_json = "=1.0.154"
flume = "=0.10.14"
unic-langid = "0.9"
