[package]
name = "ztask_web"
version = "0.1.0"
edition = "2021"
publish = false

[dependencies]
serde = { version = "1", features = ["derive"] }
serde_json = "1"
chrono = "0.4"
axum = "0.8"
askama = "0.14"
tokio = { version = "1", features = ["macros", "rt-multi-thread", "net", "time"] }
zenoh = { version = "1", default-features = false, features = ["transport_tcp"] }
async-trait = "0.1"
tracing = "0.1"
tracing-subscriber = "0.3"
