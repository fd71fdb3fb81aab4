[package]
name = "dashbars"
version = "0.1.0"
edition = "2021"
publish = false

[dependencies]
clap = { version = "*", features = ["derive"] }
color-eyre = "*"
derive_deref = "*"
ratatui = "*"
tokio = { version = "*", features = ["full"] }
tracing = "*"
tracing-error = "*"
tracing-subscriber = "*"
