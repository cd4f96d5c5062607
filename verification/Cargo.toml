[package]
name = "shortrl"
version = "0.1.0"
edition = "2021"
publish = false

[dependencies]
chrono = "0.4"
dashmap = "6"
nanoid = "0.4"
rocket = "0.5"
shuttle-rocket = "0.57"
shuttle-runtime = { version = "0.57", default-features = false }
shuttle-shared-db = { version = "0.57", features = ["postgres", "sqlx"] }
sqlx = { version = "0.8", default-features = false, features = ["postgres", "chrono", "runtime-tokio"] }
tokio = { version = "1", features = ["time", "rt"] }
