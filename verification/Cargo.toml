[package]
name = "unilyric"
version = "0.1.0"
edition = "2021"
publish = false

[dependencies]
regex = "1"
ferrous-opencc = "0.1"
rust-ini = "0.21"
log = "0.4"
serde = { version = "1", features = ["derive"] }
serde_json = "1"
tokio = { version = "1", features = ["rt-multi-thread", "macros", "sync", "time"] }
futures-util = "0.3"
tokio-tungstenite = "*"
directories = "6"
dashmap = "6"
rand = "0.9"
thiserror = "2"
eframe = { version = "0.31", default-features = false, features = ["glow", "x11"] }
egui-toast = "0.17"
arboard = { version = "3", default-features = false }
webbrowser = "1"
