[package]
name = "leptos_spin"
version = "0.1.0"
edition = "2021"
publish = false

[dependencies]
routefinder = "*"
url = "2"
dashmap = "*"
http = "1"
bytes = "1"
futures = "0.3"
spin-sdk = "3"
leptos = { version = "0.6", features = ["ssr"] }
leptos_router = { version = "0.6", features = ["ssr"] }
leptos_meta = { version = "0.6", features = ["ssr"] }
leptos_integration_utils = "0.6"
