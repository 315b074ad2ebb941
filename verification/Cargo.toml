[package]
name = "dbsp"
version = "0.1.0"
edition = "2021"
publish = false

[dependencies]
actix-web = { version = "4", default-features = false, features = ["macros"] }
actix-web-static-files = "4"
anyhow = "1"
awc = { version = "3", default-features = false }
bincode = { version = "2", features = ["serde"] }
chrono = "0.4"
clap = { version = "4", features = ["derive"] }
colored = "2"
deepsize = "0.2"
env_logger = "0.11"
erased-serde = "0.4"
form_urlencoded = "1"
hashbrown = "0.14"
log = "0.4"
mime = "0.3"
num = "0.4"
rust_decimal = { version = "1", features = ["maths"] }
serde = { version = "1", features = ["derive"] }
serde_json = "1"
serde_urlencoded = "0.7"
serde_yaml = "0.9"
size-of = "0.1"
textwrap = "0.16"
timely = "0.12"
tokio = { version = "1", features = ["fs", "process", "rt", "sync", "time", "macros"] }
utoipa = "4"
uuid = { version = "1", features = ["v4", "v7"] }
