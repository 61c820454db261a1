[package]
name = "gvc"
version = "0.1.0"
edition = "2021"
publish = false

[dependencies]
clap = { version = "4", features = ["derive"] }
colored = "*"
indicatif = "*"
jiff = "*"
quick-xml = { version = "*", features = ["serialize"] }
regex = "1"
reqwest = { version = "*", features = ["blocking"] }
semver = "1"
serde = { version = "1", features = ["derive"] }
serde_json = "1"
thiserror = "*"
toml = "*"
toml_edit = "*"
url = "2"
