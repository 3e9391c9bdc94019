[package]
name = "ouro"
version = "0.1.0"
edition = "2021"
publish = false

[dependencies]
anyhow = "*"
chrono = { version = "*", default-features = false, features = ["clock"] }
clap = { version = "*", default-features = false, features = ["derive", "std", "help", "usage"] }
directories = "*"
futures = { version = "*", default-features = false, features = ["std"] }
genai = "*"
htmd = "*"
nix = { version = "*", features = ["signal", "process"] }
regex = "*"
reqwest = { version = "*", default-features = false, features = ["json", "rustls-tls"] }
scraper = "*"
serde = { version = "*", features = ["derive"] }
serde_json = "*"
thiserror = "*"
tokio = { version = "*", features = ["macros", "rt-multi-thread", "process", "io-util", "time", "sync", "signal", "fs"] }
tokio-util = "*"
toml = "*"
tracing = "*"
tracing-subscriber = { version = "*", default-features = false, features = ["env-filter", "fmt"] }
uuid = { version = "*", features = ["v4"] }
