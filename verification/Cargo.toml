[package]
name = "rmqtt"
version = "0.1.0"
edition = "2021"
publish = false

[dependencies]
ntex-mqtt = "=6.7.0"
# ntex-bytes and ntex-rt are what ntex-mqtt itself builds on. They are
# held at the releases that ntex-mqtt 6.7 compiles against with rustc 1.95:
# later ones ask for a newer compiler or have changed what ntex-mqtt calls.
ntex-bytes = "=1.10.0"
ntex-rt = "=3.4.0"
serde = { version = "=1.0.229", features = ["derive"] }
serde_json = "=1.0.154"
bincode = "=1.3.3"
tokio = { version = "=1.54.1", features = ["rt", "sync", "time", "macros"] }
futures = "=0.3.34"
log = "=0.4.34"
anyhow = "=1.0.104"
thiserror = "=1.0.69"
chrono = "=0.4.45"
backoff = { version = "=0.4.0", features = ["tokio"] }
async-trait = "=0.1.92"
toml = "=0.5.11"
rmqtt-raft = "=0.8.0"
reqwest = { version = "=0.13.5", default-features = false, features = ["json", "query", "form"] }
base64 = "=0.23.1"
