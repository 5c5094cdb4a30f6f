[package]
name = "kyoku"
version = "0.1.0"
edition = "2021"
publish = false

[dependencies]
anyhow = "1"
axum = "0.4"
base64 = "0.13"
chrono = { version = "0.4", default-features = false, features = ["std"] }
dotenv = "0.15"
futures = "0.3"
jwalk = "0.6"
md-5 = "0.10"
metaflac = "0.2"
notify = "5"
reqwest = { version = "0.11", default-features = false, features = ["json", "rustls-tls"] }
serde = { version = "1", features = ["derive"] }
serde_json = "1"
sqlx = { version = "0.6", default-features = false, features = ["runtime-tokio-rustls", "postgres", "time", "macros"] }
time = { version = "0.3", features = ["serde"] }
tokio = { version = "1", features = ["full"] }
tower = { version = "0.4", features = ["util"] }
tower-http = { version = "0.2", features = ["fs"] }
