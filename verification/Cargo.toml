[package]
name = "zhlint"
version = "0.1.0"
edition = "2021"
publish = false

[dependencies]
pulldown-cmark = "0.9"
icu_properties = "1"
serde = { version = "1", features = ["derive"] }
thiserror = "1"
miette = "5"
toml = "0.8"
glob = "0.3"
clap = { version = "4", features = ["derive"] }
