[package]
name = "vopono_nordvpn"
version = "0.1.0"
edition = "2021"
publish = false

[dependencies]
anyhow = "1"
log = "0.4"
reqwest = { version = "0.12", default-features = false, features = ["blocking", "rustls-tls"] }
zip = { version = "2", default-features = false, features = ["deflate"] }

[dev-dependencies]
regex = "1"
