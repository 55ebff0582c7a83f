[package]
name = "toolbox"
version = "0.1.0"
edition = "2021"
publish = false

[dependencies]
owo-colors = "=4.4.0"
hmac = "=0.13.0"
sha2 = "=0.11.1"
hex = "=0.4.3"
goblin = "=0.10.7"
hashbrown = "=0.17.1"
path-slash = "=0.2.1"
num-traits = "=0.2.19"
num-complex = "=0.4.6"
realfft = "=3.5.1"
rustfft = "=6.4.1"
phastft = "*"
rayon = "=1.12.0"
serde = { version = "=1.0.229", features = ["derive"] }
serde_json = "=1.0.154"
serde_with = "=3.24.0"
schemars = "=1.2.3"
toml = "=1.2.1"
clap = { version = "=4.6.7", features = ["derive"] }
clap-verbosity-flag = "=3.0.4"
strum = { version = "=0.28.0", features = ["derive"] }
tracing = "=0.1.44"
tracing-subscriber = { version = "=0.3.23", features = ["env-filter"] }
chrono = "=0.4.45"
tokio = { version = "=1.54.1", features = ["rt-multi-thread", "macros", "net", "signal", "sync", "time"] }
axum = { version = "=0.8.9", features = ["ws"] }
futures = "=0.3.34"
portable-pty = "=0.9.0"
dirs = "=7.0.0"
