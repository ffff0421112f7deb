[package]
name = "mcp_google_sheets"
version = "0.1.0"
edition = "2021"
publish = false

[dependencies]
anyhow = "*"
async-mcp = "*"
clap = { version = "*", features = ["derive", "env"] }
google-drive3 = "*"
google-sheets4 = "*"
reqwest = { version = "*", features = ["json"] }
serde = { version = "*", features = ["derive"] }
serde_json = "*"
thiserror = "*"
tokio = { version = "*", features = ["macros", "rt-multi-thread"] }
tracing = "*"
tracing-subscriber = { version = "*", features = ["env-filter"] }
url = "*"
