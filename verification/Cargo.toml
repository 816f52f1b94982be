[package]
name = "stock_rs"
version = "0.1.0"
edition = "2021"
publish = false

[dependencies]
unicode-width = "0.1"
tui = "0.19"
crossterm = "0.25"
serde = { version = "1", features = ["derive"] }
tokio = { version = "1", features = ["macros", "rt-multi-thread", "time"] }
reqwest = { version = "0.12", default-features = false, features = ["json"] }
log = "0.4"
