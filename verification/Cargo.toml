[package]
name = "connect_games"
version = "0.1.0"
edition = "2021"
publish = false

[dependencies]
rand = "=0.8.8"
rust-argon2 = "1.0"
chrono = "0.4"
serde = { version = "1", features = ["derive"] }
log = "0.4"
yew = { version = "0.20", features = ["csr"] }
yew-router = "0.17"
gloo-net = "0.2"
gloo-timers = "0.2"
gloo-dialogs = "0.1"
wasm-bindgen-futures = "0.4"
wasm-logger = "0.2"
web-sys = { version = "0.3", features = ["HtmlInputElement"] }
rocket = { version = "0.5", features = ["json"] }
rocket_db_pools = { version = "0.1", features = ["mongodb"] }
