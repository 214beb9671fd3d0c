[package]
name = "android_adb_run"
version = "0.1.0"
edition = "2021"
publish = false

[dependencies]
adb_client = "2"
homedir = "0.3"
image = { version = "0.25", default-features = false, features = ["png", "jpeg"] }
log = "0.4"
serde = { version = "1", features = ["derive"] }
serde_json = "1"
thiserror = "2"
time = "0.3"
tokio = { version = "1", features = ["full"] }
toml = "0.8"
