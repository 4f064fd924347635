[package]
name = "shock_engine"
version = "0.1.0"
edition = "2021"
publish = false

[dependencies]
chrono = "0.4"
fern = "0.7"
log = "0.4"
pishock_rs = "*"
ron = "*"
serde = { version = "1", features = ["derive"] }
serenity = "0.12"
thiserror = "2"
tokio = { version = "1", features = ["macros", "rt-multi-thread", "signal", "time", "fs"] }
