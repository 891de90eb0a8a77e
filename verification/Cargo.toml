[package]
name = "persona-mind"
version = "0.1.0"
edition = "2021"
publish = false

[dependencies]
kameo = "=0.20.0"
tokio = { version = "=1.54.1", features = ["full"] }
thiserror = "=2.0.21"
