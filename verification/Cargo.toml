[package]
name = "gwtree"
version = "0.1.0"
edition = "2021"
publish = false

[dependencies]
sha1 = "*"
anyhow = "*"
clap = { version = "*", features = ["derive"] }
clap_complete = "*"
console = "*"
dialoguer = "*"
dirs = "*"
serde = { version = "*", features = ["derive"] }
thiserror = "*"
toml = "*"
