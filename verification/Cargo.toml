[package]
name = "dataset_prep"
version = "0.1.0"
edition = "2021"
publish = false

[dependencies]
anyhow = "1"
bullpen = "*"
clap = { version = "4", features = ["derive"] }
csv = "1"
dotenv = "0.15"
itertools = "*"
serde = { version = "1", features = ["derive"] }
serde_json = "1"
tokio = { version = "1", features = ["macros", "rt-multi-thread"] }
