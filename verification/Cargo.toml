[package]
name = "fauni_search"
version = "0.1.0"
edition = "2021"
publish = false

[dependencies]
sha2 = "=0.10.9"
serde_json = "=1.0.154"
serde = { version = "1", features = ["derive"] }
reqwest = { version = "*", default-features = false }
tokio = { version = "1", features = ["rt-multi-thread", "macros", "time", "signal", "net"] }
clap = { version = "4", features = ["derive"] }
webbrowser = "*"
