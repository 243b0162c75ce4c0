[package]
name = "chirp_feed"
version = "0.1.0"
edition = "2021"
publish = false

[dependencies]
argonautica = "=0.2.0"
async-std = { version = "=1.13.2", features = ["attributes"] }
async-trait = "=0.1.92"
chrono = { version = "=0.4.45", features = ["serde"] }
dotenv = "=0.15.0"
failure = "=0.1.8"
futures = { version = "=0.3.34", features = ["compat"] }
http-types = "=2.12.0"
pretty_env_logger = "=0.4.0"
rand = "=0.8.8"
seed = "=0.8.0"
serde = { version = "=1.0.229", features = ["derive"] }
serde_json = "=1.0.154"
sqlx = { version = "=0.5.13", default-features = false, features = ["runtime-async-std-rustls", "postgres", "uuid", "chrono"] }
tide = "=0.16.0"
uuid = { version = "=0.8.2", features = ["v4", "serde"] }

[dev-dependencies]
regex = "=1.13.1"
