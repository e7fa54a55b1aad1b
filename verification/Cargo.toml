[package]
name = "glass_easel_analyzer"
version = "0.1.0"
edition = "2021"
publish = false

[dependencies]
cssparser = "*"
cssparser-color = "*"
glass-easel-template-compiler = "*"
lsp-types = "0.95"
lsp-server = "*"
serde = { version = "1", features = ["derive"] }
serde_json = "1"
toml = "*"
tokio = { version = "1", features = ["full"] }
tokio-stream = { version = "*", features = ["fs"] }
futures = "*"
anyhow = "1"
log = "0.4"
itertools = "*"
clap = { version = "4", features = ["derive"] }
