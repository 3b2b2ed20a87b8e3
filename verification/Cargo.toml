[package]
name = "stout"
version = "0.1.0"
edition = "2021"
publish = false

[dependencies]
serenity = "0.10"
tokio = { version = "1", features = ["macros", "rt-multi-thread"] }
lazy_static = "1"
plotters = "0.3"
