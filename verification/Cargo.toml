[package]
name = "blog_api"
version = "0.1.0"
edition = "2021"
publish = false

[dependencies]
axum = "=0.8.9"
axum-extra = { version = "=0.12.6", features = ["cookie"] }
bcrypt = "=0.19.3"
bson = "=2.15.0"
chrono = "=0.4.45"
cookie = "=0.18.2"
dotenv = "=0.15.0"
futures = "=0.3.34"
hmac = "=0.12.1"
jwt = "=0.16.0"
log = "=0.4.34"
mongodb = "=3.9.1"
reqwest = { version = "=0.12.28", default-features = false, features = ["json", "rustls-tls"] }
serde = { version = "=1.0.229", features = ["derive"] }
serde_json = "=1.0.151"
sha2 = "=0.10.9"
time = "=0.3.55"
tokio = { version = "=1.53.2", features = ["macros", "rt-multi-thread", "net", "signal"] }
tower-http = { version = "=0.6.11", features = ["cors", "trace"] }
tracing = "=0.1.44"
tracing-subscriber = { version = "=0.3.23", features = ["env-filter"] }
validator = { version = "=0.21.0", features = ["derive"] }
