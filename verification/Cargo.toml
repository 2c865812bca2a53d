[package]
name = "mijia_homie"
version = "0.1.0"
edition = "2021"
publish = false

[dependencies]
uuid = "1"
rumqttc = "*"
tokio = { version = "1", features = ["rt", "rt-multi-thread", "macros", "time", "sync"] }
serde = { version = "1", features = ["derive"] }
toml = "*"
log = "0.4"
futures = "0.3"
thiserror = "*"
eyre = "*"
stable-eyre = "*"
rustls = "*"
rustls-native-certs = "*"
async-channel = "*"
local_ipaddress = "*"
mac_address = "*"
pretty_env_logger = "*"
