[package]
name = "rss_autodl"
version = "0.1.0"
edition = "2021"
publish = false

[dependencies]
chrono = { version = "0.4", features = ["serde"] }
futures = "0.3"
once_cell = "1"
quick-xml = { version = "*", features = ["serialize"] }
regex = "1"
reqwest = { version = "0.12", default-features = false, features = ["rustls-tls"] }
serde = { version = "1", features = ["derive"] }
serde_yaml = "0.9"
strfmt = "0.2"
tokio = { version = "1", features = ["macros", "rt-multi-thread", "time"] }
urlencoding = "2"
