[package]
name = "immic_app"
version = "0.1.0"
edition = "2021"
publish = false

[dependencies]
chrono = "=0.4.45"
unicode-segmentation = "=1.13.3"
url = "=2.5.8"
regex = "=1.13.1"
serde = { version = "=1.0.229", features = ["derive"] }
serde_json = "=1.0.154"
anyhow = "=1.0.104"
log = "=0.4.35"
env_logger = "=0.11.11"
dotenv = "=0.15.0"
tokio = { version = "=1.54.1", features = ["full"] }
tokio-util = "=0.7.20"
futures = "=0.3.34"
once_cell = "=1.21.4"
sqlx = { version = "=0.7.4", features = ["sqlite", "runtime-tokio"] }
actix-web = "=4.18.1"
actix-cors = "=0.7.2"
notify-debouncer-full = "=0.3.2"
image = { version = "=0.24.9", default-features = false, features = ["jpeg", "png"] }
