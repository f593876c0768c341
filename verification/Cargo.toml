[package]
name = "gitlab_trackrd"
version = "0.1.0"
edition = "2021"
publish = false

[dependencies]
chrono = "=0.4.45"
confique = { version = "=0.4.0", features = ["toml"] }
dirs = "=7.0.0"
gitlab = "=0.1905.0"
http = "=1.5.0"
notify = "=8.2.1"
oo7 = "=0.6.0"
redb = "=4.4.0"
serde = { version = "1", features = ["derive"] }
serde_json = "=1.0.154"
tokio = { version = "=1.54.1", features = ["full"] }
tracing = "=0.1.44"
tracing-subscriber = { version = "=0.3.23", features = ["env-filter"] }
varlink = "13"
