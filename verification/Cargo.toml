[package]
name = "file_server"
version = "0.1.0"
edition = "2021"
publish = false

[dependencies]
bytes = "1"
chrono = "0.4"
futures-util = "0.3"
mime_guess = "2"
percent-encoding = "2"
serde = { version = "1", features = ["derive"] }
tokio = { version = "1", features = ["full"] }
warp = "0.3"
zip = { version = "2", default-features = false, features = ["deflate"] }
