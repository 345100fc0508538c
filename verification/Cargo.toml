[package]
name = "tamako"
version = "0.1.0"
edition = "2021"
publish = false

[dependencies]
base64 = "=0.22.1"
image = { version = "=0.25.10", default-features = false, features = ["jpeg", "png", "webp"] }
lbug = "=0.22.1"
rand = "=0.9.5"
rusqlite = { version = "=0.37.0", features = ["bundled"] }
serde = { version = "=1.0.229", features = ["derive"] }
serde_json = { version = "=1.0.154", features = ["preserve_order"] }
sqlite-vec = "=0.1.9"
thiserror = "=2.0.21"
time = { version = "=0.3.55", features = ["formatting", "macros", "parsing", "serde"] }
time-tz = "=2.0.0"
tokio = { version = "=1.54.1", features = ["macros", "rt-multi-thread", "sync"] }
toml = "=0.8.23"
tracing = "=0.1.44"
unicode-normalization = "=0.1.26"
uuid = { version = "=1.29.0", features = ["v5"] }

[dev-dependencies]
tempfile = "=3.27.0"
