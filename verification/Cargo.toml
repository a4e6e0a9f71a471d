[package]
name = "locket"
version = "1.0.0"
edition = "2021"
publish = false

[dependencies]
clap = { version = "=4.6.7", features = ["derive"] }
clap-verbosity-flag = "=2.2.3"
color-eyre = "=0.6.5"
dialoguer = { version = "=0.11.0", features = ["fuzzy-select"] }
directories = "=5.0.1"
log = "=0.4.34"
nucleo-matcher = { version = "=0.2.0", default-features = false, features = ["unicode-casefold"] }
pretty_env_logger = "=0.5.0"
rmp-serde = "=1.3.1"
serde = { version = "=1.0.229", features = ["derive"] }
serde_derive = "=1.0.229"
serde_json = "=1.0.154"
signal-hook = "=0.3.18"
tabled = "=0.15.0"
thiserror = "=1.0.69"
tiny_http = "=0.12.0"
toml = "=0.8.23"
url = "=2.5.8"
uuid = { version = "=1.29.0", features = ["v4", "serde"] }
