[package]
name = "archivist_core"
version = "0.1.0"
edition = "2021"
publish = false

[dependencies]
dirs = "*"
chrono = "0.4"
uuid = { version = "1", features = ["v4"] }
urlencoding = "2"
mime_guess = "2"
serde = { version = "1", features = ["derive"] }
serde_json = "1"
toml = "*"
reqwest = { version = "0.11", default-features = false, features = ["json"] }
warp = "0.3"
tokio = { version = "1", features = ["full"] }
notify = "*"

[dev-dependencies]
tempfile = "3"
