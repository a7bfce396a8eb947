[package]
name = "ndnd"
version = "0.1.0"
edition = "2021"
publish = false

[dependencies]
serde = { version = "1", features = ["derive"] }
serde_json = "1"
serde-xml-rs = "0.6"
ratatui = "0.22"
crossterm = "0.26"
reqwest = { version = "0.11", default-features = false, features = ["blocking", "json", "rustls-tls"] }
open = "5"
winreg = "0.51"
