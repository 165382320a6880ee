[package]
name = "lexi"
version = "0.1.0"
edition = "2021"
publish = false

[dependencies]
anyhow = "1"
askama = "0.12"
chrono = { version = "0.4", features = ["serde"] }
directories = "5"
glob = "0.3"
ipa-translate = "*"
log = "0.4"
oneshot = "*"
regex = "1"
semver = { version = "1", features = ["serde"] }
serde = { version = "1", features = ["derive"] }
serde_json = "1"
thiserror = "1"
uuid = { version = "1", features = ["v4", "serde"] }
