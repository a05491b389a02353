[package]
name = "git_viewer"
version = "0.1.0"
edition = "2021"
publish = false

[dependencies]
chrono = "0.4"
git2 = { version = "0.20", default-features = false }
log = "0.4"
serde = { version = "1", features = ["derive"] }
tauri = { version = "2", default-features = false }

[dev-dependencies]
tempfile = "3"
