[package]
name = "clipdate"
version = "0.1.0"
edition = "2021"
publish = false

[dependencies]
anyhow = "1"
clap = { version = "4", features = ["derive", "env"] }
console = "0.16"
flate2 = "=1.1.10"
hex = "=0.4.3"
indicatif = "0.18"
rayon = "1"
regex = "=1.13.1"
reqwest = { version = "=0.12.28", default-features = false, features = ["blocking", "json", "rustls-tls"] }
semver = "=1.0.28"
serde = { version = "1", features = ["derive"] }
serde_json = "1"
sha2 = "=0.10.9"
supports-unicode = "3"
tar = "=0.4.46"
zip = { version = "8", default-features = false, features = ["deflate"] }
