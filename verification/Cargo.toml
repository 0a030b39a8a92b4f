[package]
name = "bot_runner"
version = "0.1.0"
edition = "2021"
publish = false

[dependencies]
chrono = { version = "=0.4.45", features = ["serde"] }
itertools = "=0.15.0"
serde = { version = "=1.0.229", features = ["derive"] }
serde_json = "=1.0.154"
thiserror = "=1.0.69"
log = "=0.4.34"
tokio = { version = "=1.54.1", features = ["rt-multi-thread", "macros", "time"] }
futures = "=0.3.34"
teloxide = { version = "=0.14.1", default-features = false, features = ["macros", "rustls", "ctrlc_handler"] }
mongodb = { version = "=3.9.1", default-features = false, features = ["compat-3-0-0", "rustls-tls"] }
envconfig = "=0.11.1"
dotenvy = "=0.15.7"
pretty_env_logger = "=0.5.0"
build-time = "=0.1.3"
takecell = "=0.1.1"
deno_core = "*"
serde_v8 = "*"
