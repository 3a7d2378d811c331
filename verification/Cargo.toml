[package]
name = "nullxes"
version = "0.1.0"
edition = "2021"
publish = false

[dependencies]
shlex = "=1.3.0"
fuzzy-matcher = "=0.3.7"
freedesktop-desktop-entry = "=0.8.4"
serde = { version = "=1.0.229", features = ["derive"] }
serde_json = "=1.0.154"
toml = "=1.1.8"
tokio = { version = "=1.54.1", features = ["full"] }
dirs-next = "=2.0.0"
anyhow = "=1.0.104"
thiserror = "=2.0.21"
tracing = "=0.1.44"
tracing-subscriber = { version = "=0.3.23", features = ["env-filter"] }
libc = "=0.2.191"
parking_lot = "=0.13.0"
greetd_ipc = { version = "=0.10.3", features = ["sync-codec"] }
zbus = { version = "=6.2.1", default-features = false, features = ["tokio", "proxy", "service"] }
zvariant = "=5.15.1"
futures-util = "=0.3.34"
