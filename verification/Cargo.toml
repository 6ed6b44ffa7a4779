[package]
name = "steam_backup_manager"
version = "0.1.0"
edition = "2021"
publish = false

[dependencies]
serde_json = "1"
serde = { version = "1", features = ["derive"] }
urlencoding = "2"
base64 = "0.21"
rusqlite = { version = "0.29", features = ["bundled"] }
reqwest = { version = "0.11", default-features = false, features = ["json", "rustls-tls"] }
tokio = { version = "1", features = ["rt-multi-thread", "macros", "time", "sync"] }
notify = "6"
sysinfo = "0.30"
chrono = "0.4"
dirs = "5"
