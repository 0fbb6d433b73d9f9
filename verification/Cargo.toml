[package]
name = "pg_otel_tracer"
version = "0.1.0"
edition = "2021"
publish = false

[dependencies]
regex = "1"
rand = "0.8"
serde = { version = "1", features = ["derive"] }
serde_json = "1"
ureq = "2"
pgrx = { version = "=0.11.2", features = ["pg16"] }
