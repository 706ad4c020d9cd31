[package]
name = "cim_web"
version = "0.1.0"
edition = "2021"
publish = false

[dependencies]
actix-files = "0.6"
actix-rt = "2"
actix-web = "4"
actix-ws = "0.2"
dotenv = "0.15"
env_logger = "0.10"
futures = "0.3"
leptos = "0.5"
leptos_actix = "0.5"
llm = "0.1"
log = "0.4"
rand = "0.8"
secrecy = { version = "0.8", features = ["serde"] }
serde = { version = "1", features = ["derive"] }
serde_yaml = "0.9"
tokio = { version = "1", features = ["rt", "rt-multi-thread", "sync", "fs", "macros"] }
