[package]
name = "automated_scout"
version = "0.1.0"
edition = "2021"
publish = false

[dependencies]
actix-files = "0.6"
actix-web = { version = "4", default-features = false, features = ["macros"] }
argh = "0.1"
bincode = "1.3"
futures-util = "0.3"
serde = { version = "1", features = ["derive"] }
serde_json = "1"
serde_yaml = "0.9"
simplelog = "0.12"
sled = "0.34"
thiserror = "1"
tokio = { version = "1", features = ["macros", "rt-multi-thread", "time"] }
ureq = { version = "2", features = ["json"] }
