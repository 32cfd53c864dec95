[package]
name = "csi-webserver-core"
version = "0.1.0"
edition = "2021"
publish = false

# axum's feature `json` stays off. It switches on serde_json's `raw_value`, under which an
# object with a reserved key is parsed anew and without the bound on nesting.
[dependencies]
axum = { version = "=0.8.9", default-features = false, features = ["form", "http1", "matched-path", "original-uri", "query", "tokio", "tower-log", "tracing", "ws"] }
chrono = "=0.4.45"
serde = { version = "=1.0.229", features = ["derive"] }
serde_json = "=1.0.154"
tokio = { version = "=1.54.1", features = ["full"] }
tokio-serial = { version = "=5.5.0", default-features = false }
tokio-util = "=0.7.20"
tracing = "=0.1.44"
