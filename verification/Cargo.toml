[package]
name = "user_service"
version = "0.1.0"
edition = "2021"
publish = false

[dependencies]
slab = "0.4"
poem = "*"
poem-openapi = { version = "*", features = ["swagger-ui", "email"] }
tokio = { version = "1", features = ["rt-multi-thread", "macros", "time", "sync"] }
tracing = "0.1"
tracing-appender = "0.2"
tracing-subscriber = { version = "0.3", features = ["time"] }
time = { version = "0.3", features = ["macros", "formatting"] }
