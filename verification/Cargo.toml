[package]
name = "omnimesh"
version = "0.1.0"
edition = "2021"
publish = false

[dependencies]
chacha20poly1305 = "=0.10.1"
hkdf = "=0.12.4"
sha2 = "=0.10.9"
ed25519-dalek = "=2.2.0"
rand = "=0.8.8"
hex = "=0.4.3"
base64 = "=0.22.1"
zeroize = "=1.9.1"
uuid = { version = "=1.29.0", features = ["v4"] }
snow = { version = "=0.9.6", features = ["risky-raw-split"] }
dashmap = "=6.2.1"
serde = { version = "=1.0.229", features = ["derive"] }
serde_json = "=1.0.154"
toml = "=0.8.23"
bincode = "=1.3.3"
chrono = "=0.4.45"
clap = { version = "=4.6.7", features = ["derive"] }
thiserror = "=1.0.69"
anyhow = "=1.0.104"
tokio = { version = "=1.54.1", features = ["rt-multi-thread", "macros", "sync", "time", "signal"] }
async-trait = "=0.1.92"
bytes = "=1.12.1"
parking_lot = "=0.12.5"
tracing = "=0.1.44"
tracing-subscriber = { version = "=0.3.23", features = ["env-filter", "json"] }
libp2p = { version = "=0.54.1", features = ["tokio", "tcp", "noise", "yamux", "kad", "mdns", "identify", "macros", "ed25519"] }
quinn = { version = "=0.11.12", default-features = false, features = ["runtime-tokio", "rustls-ring"] }
rustls = { version = "=0.23.46", default-features = false, features = ["ring", "std"] }
rcgen = { version = "=0.13.2", default-features = false, features = ["crypto", "ring"] }
backoff = "=0.4.0"
