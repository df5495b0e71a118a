[package]
name = "syncmesh"
version = "0.1.0"
edition = "2021"
publish = false

[dependencies]
anyhow = "=1.0.104"
bytes = "=1.12.1"
clap = { version = "=4.6.7", default-features = false, features = ["derive", "std", "help", "usage", "error-context"] }
crossterm = { version = "=0.28.1", default-features = false, features = ["event-stream", "events"] }
data-encoding = "=2.11.1"
directories = "=6.0.0"
futures = { version = "=0.3.34", default-features = false, features = ["std"] }
iroh = { version = "=0.98.2", default-features = false, features = ["tls-ring"] }
postcard = { version = "=1.1.3", default-features = false, features = ["alloc", "use-std"] }
serde = { version = "=1.0.229", features = ["derive"] }
serde_json = "=1.0.154"
thiserror = "=2.0.21"
tokio = { version = "=1.54.1", features = ["fs", "io-util", "macros", "net", "process", "rt-multi-thread", "signal", "sync", "time"] }
toml = "=0.8.23"
tracing = "=0.1.44"
tracing-subscriber = { version = "=0.3.23", default-features = false, features = ["env-filter", "fmt", "json", "std"] }
