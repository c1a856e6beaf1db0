[package]
name = "werk_cli"
version = "0.1.0"
edition = "2021"
publish = false

[dependencies]
anyhow = "1"
base64 = "0.22"
clap = { version = "4", features = ["derive", "env"] }
console = "0.15"
fs2 = "0.4"
getrandom = "0.2"
indicatif = "0.17"
libc = "0.2"
serde = { version = "1", features = ["derive"] }
serde_json = "1"
sha2 = "0.10"
tokio = { version = "1", features = ["macros", "rt-multi-thread", "time", "signal"] }
tokio-stream = "0.1"
