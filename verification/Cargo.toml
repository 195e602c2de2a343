[package]
name = "citeproc"
version = "0.1.0"
edition = "2021"
publish = false

[dependencies]
rand = "0.7"
roxmltree = "0.14"
serde = { version = "1", features = ["derive"] }
serde_json = "1"
thiserror = "1"
typed-arena = "2"
