[package]
name = "neogh"
version = "0.1.0"
edition = "2021"
publish = false

[dependencies]
chrono = "=0.4.45"
regex = "=1.13.1"
serde = { version = "=1.0.229", features = ["derive"] }
serde_json = "=1.0.154"
tokio = { version = "=1.54.1", features = ["rt-multi-thread"] }
octocrab = "=0.40.0"
nvim-oxi = { version = "=0.6.0", features = ["neovim-0-10", "libuv"] }
