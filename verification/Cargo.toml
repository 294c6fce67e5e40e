[package]
name = "rss_desktop_widget"
version = "0.1.1"
edition = "2021"
publish = false

[dependencies]
url = "2"
feed-rs = "2"
html2text = "*"
sha2 = "0.10"
chrono = "0.4"
rusqlite = { version = "*", features = ["bundled"] }
reqwest = { version = "0.12", default-features = false, features = ["rustls-tls"] }
tokio = { version = "1", features = ["time", "rt", "macros"] }
serde = { version = "1", features = ["derive"] }
anyhow = "1"
