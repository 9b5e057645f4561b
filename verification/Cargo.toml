[package]
name = "skakarlak"
version = "0.1.0"
edition = "2021"
publish = false

[dependencies]
shakmaty = "=0.27.3"
portable-atomic = "=1.15.0"
shakmaty-uci = "=0.1.1"
crossbeam-channel = "=0.5.17"
chrono = "=0.4.45"
tokio = { version = "=1.53.2", features = ["io-std", "io-util"] }

[dev-dependencies]
rand = "=0.8.8"
