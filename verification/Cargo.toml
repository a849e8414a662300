[package]
name = "cardamon"
version = "0.1.0"
edition = "2021"
publish = false

[dependencies]
uuid = { version = "1", features = ["v5"] }
axum = "*"
clap = { version = "4", features = ["derive"] }
notify-debouncer-full = "*"
tokio = { version = "1", features = ["rt-multi-thread", "net", "macros"] }
tower-http = { version = "*", features = ["fs"] }
id3 = "1"
minijinja = "2"
serde = { version = "1", features = ["derive"] }
walkdir = "2"
