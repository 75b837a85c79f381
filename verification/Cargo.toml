[package]
name = "tai"
version = "0.1.0"
edition = "2021"
publish = false

[dependencies]
async-openai = "0.28"
dirs = "5"
futures = "0.3"
libproc = "0.14"
nix = { version = "0.29", features = ["term", "process", "signal"] }
raylib = "5.5"
serde = { version = "1", features = ["derive"] }
serde_json = "1"
ssh2 = "0.9"
tokio = { version = "1", features = ["rt-multi-thread"] }
toml = "0.8"
uuid = { version = "1", features = ["v4"] }
