[package]
name = "gitmind"
version = "0.1.0"
edition = "2021"
publish = false

[dependencies]
git2 = { version = "*", default-features = false }
anyhow = "*"
async-trait = "*"
clap = { version = "*", features = ["derive"] }
tokio = { version = "*", features = ["macros", "rt-multi-thread"] }
reqwest = { version = "*", default-features = false, features = ["json"] }
serde = { version = "*", features = ["derive"] }
serde_json = "*"
thiserror = "*"
toml = "*"
tracing = "*"
dialoguer = { version = "*", default-features = false }
arboard = { version = "*", default-features = false }
