[package]
name = "bacnet-republisher"
version = "0.1.0"
edition = "2021"
publish = false

[dependencies]
anyhow = "=1.0.104"
bacnet-client = "=0.8.1"
bacnet-services = "=0.8.1"
bacnet-transport = "=0.8.1"
bacnet-types = "=0.8.1"
chrono = "=0.4.45"
crossbeam-channel = "=0.5.17"
directories = "=6.0.0"
futures-util = "=0.3.34"
get_if_addrs = "=0.5.3"
iced = { version = "=0.14.0", default-features = false, features = ["tokio", "tiny-skia", "x11"] }
rumqttc = "=0.25.1"
serde = { version = "1", features = ["derive"] }
serde_json = "=1.0.154"
tokio = { version = "1", features = ["rt-multi-thread", "macros", "time"] }
toml = "0.9"
