[package]
name = "rust-fpm"
version = "0.1.0"
edition = "2021"
publish = false

[dependencies]
anyhow = "1"
ext-php-rs = { version = "*", features = ["embed"] }
nix = { version = "0.29", features = ["fs", "user"] }
tokio = { version = "1", features = ["full"] }
tokio-fastcgi = "*"
tracing = "0.1"
tracing-subscriber = { version = "0.3", features = ["env-filter"] }
