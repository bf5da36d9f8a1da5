[package]
name = "minishell"
version = "0.1.0"
edition = "2021"
publish = false

[dependencies]
unicode-width = "=0.1.14"
crossterm = "=0.28.1"
dirs = "=5.0.1"
subtle = "=2.6.1"
anyhow = "=1.0.104"
thiserror = "=1.0.69"
serde = { version = "=1.0.229", features = ["derive"] }
toml = "=0.8.23"
clap = { version = "=4.6.7", features = ["derive"] }
ratatui = "=0.28.1"
rusqlite = { version = "=0.31.0", features = ["bundled"] }
ssh2 = "=0.9.6"
calamine = "=0.27.0"
rust_xlsxwriter = "=0.90.2"
libc = "=0.2.191"
nix = { version = "=0.29.0", features = ["term", "process", "signal"] }
russh = { version = "=0.62.7", default-features = false, features = ["flate2", "ring", "rsa"] }
russh-sftp = "=2.4.0"
tokio = { version = "=1.54.1", features = ["full"] }
tracing = "=0.1.44"
tracing-subscriber = "=0.3.23"
