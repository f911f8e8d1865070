[package]
name = "nix_index_cache"
version = "0.1.0"
edition = "2021"
publish = false

[dependencies]
csv = "*"
nix-editor = "*"
serde = { version = "*", features = ["derive"] }
serde_json = "*"
anyhow = "*"
reqwest = { version = "*", default-features = false, features = ["blocking", "brotli", "rustls-tls"] }
sqlx = { version = "*", default-features = false, features = ["sqlite", "runtime-tokio"] }
