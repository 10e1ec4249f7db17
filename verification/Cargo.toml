[package]
name = "tpt_av_control"
version = "0.1.0"
edition = "2021"
publish = false

[dependencies]
tokio = { version = "1", features = ["net", "rt", "macros"] }
midir = "*"
