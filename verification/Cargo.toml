[package]
name = "caje"
version = "0.1.0"
edition = "2021"
publish = false

[dependencies]
async-trait = "0.1"
axum = "0.6"
axum-macros = "0.3"
base64 = "0.21"
cacache = { version = "11", default-features = false, features = ["tokio-runtime"] }
chrono = "0.4"
http = "0.2"
http-cache-semantics = "1.0"
hyper = "0.14"
libc = "0.2"
maud = { version = "0.25", features = ["axum"] }
miette = "5"
reqwest = { version = "0.11", default-features = false }
sqlx = { version = "0.7", default-features = false, features = ["sqlite", "runtime-tokio", "migrate"] }
thiserror = "1"
tokio = { version = "1", features = ["full"] }
tower-cookies = { version = "0.9", features = ["private"] }
tracing = "0.1"
tracing-subscriber = "0.3"
uuid = { version = "1", features = ["v4"] }
