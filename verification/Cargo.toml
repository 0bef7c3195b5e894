[package]
name = "laesutkontroll"
version = "0.1.0"
edition = "2021"
publish = false

[dependencies]
chrono = "=0.4.45"
scraper = "=0.29.0"
reqwest = { version = "=0.12.28", default-features = false, features = ["cookies", "rustls-tls"] }
tokio = { version = "=1.54.1", features = ["macros", "rt-multi-thread"] }

[dev-dependencies]
regex = "1"
