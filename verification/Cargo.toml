[package]
name = "buechsentelefon"
version = "0.1.0"
edition = "2021"
publish = false

[dependencies]
anyhow = "=1.0.104"
argon2 = "=0.5.3"
axum = { version = "=0.7.9", features = ["ws"] }
axum-server = { version = "=0.7.3", default-features = false, features = ["tls-rustls-no-provider"] }
clap = { version = "=4.6.7", features = ["derive"] }
directories = "=5.0.1"
futures = "=0.3.34"
mime_guess = "=2.0.5"
notify = "=6.1.1"
rand = "=0.8.8"
rcgen = "=0.13.2"
rust-embed = { version = "=8.13.0", features = ["interpolate-folder-path"] }
rustls = { version = "=0.23.46", default-features = false, features = ["ring", "std", "logging", "tls12"] }
serde = { version = "=1.0.229", features = ["derive"] }
serde_json = "=1.0.154"
tokio = { version = "=1.54.1", features = ["full"] }
toml = "=0.8.23"
toml_edit = "=0.22.27"
tower-cookies = { version = "=0.10.0", features = ["private"] }
tracing = "=0.1.44"
tracing-subscriber = { version = "=0.3.23", features = ["env-filter"] }
uuid = { version = "=1.29.0", features = ["v4", "serde"] }
