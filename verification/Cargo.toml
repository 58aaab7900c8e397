[package]
name = "hopchat"
version = "2.2.0"
edition = "2021"
publish = false

[dependencies]
chacha20poly1305 = "0.10"
x25519-dalek = { version = "2", features = ["static_secrets"] }
ed25519-dalek = { version = "2", features = ["rand_core"] }
sha2 = "0.10"
hex = "0.4"
rand = "0.8"
tokio = { version = "1", features = ["rt-multi-thread", "net", "sync", "macros", "time"] }
crossterm = { version = "0.28", features = ["event-stream"] }
ratatui = "0.29"
serde = { version = "1", features = ["derive"] }
serde_json = "1"
chrono = "0.4"
dirs = "5"
dns-lookup = "2"
local-ip-address = "0.6"
socket2 = "0.5"
futures = "0.3"
once_cell = "1"
