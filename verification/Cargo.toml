[package]
name = "stammw_blog"
version = "0.1.0"
edition = "2021"
publish = false

[dependencies]
argon2rs = "=0.2.5"
base64 = "=0.13.1"
chrono = { version = "=0.4.45", features = ["serde"] }
diesel = { version = "=1.4.8", features = ["postgres", "chrono"] }
frank_jwt = "=3.1.4"
pulldown-cmark = "=0.9.6"
regex = "=1.13.1"
rocket = "=0.4.11"
rocket_contrib = { version = "=0.4.11", default-features = false, features = ["json", "tera_templates", "diesel_postgres_pool"] }
serde = { version = "=1.0.229", features = ["derive"] }
serde_json = "=1.0.154"
slug = "=0.1.6"
time = "=0.1.45"
