[package]
name = "live_preview"
version = "0.1.0"
edition = "2021"
publish = false

[dependencies]
pulldown-cmark = { version = "=0.12.2", default-features = false, features = ["html"] }
actix-web = { version = "=4.18.1", default-features = false, features = ["macros"] }
notify = "=6.1.1"
log = "=0.4.34"
env_logger = { version = "=0.11.11", default-features = false }
webbrowser = "=1.2.5"
tungstenite = { version = "0.21", default-features = false, features = ["handshake"] }
