[package]
name = "senc"
version = "0.1.0"
edition = "2021"
publish = false

[dependencies]
anyhow = "*"
clap = { version = "*", features = ["derive"] }
ctrlc = "*"
deno_ast = { version = "*", default-features = false, features = ["transpiling"] }
env_logger = "*"
handlebars = "*"
hcl-rs = "*"
jsonschema = { version = "*", default-features = false }
log = "*"
path-clean = "*"
regex = "*"
serde_json = "*"
serde_yaml = "*"
tokio = { version = "*", features = ["rt"] }
uuid = { version = "*", features = ["v4"] }
walkdir = "*"
