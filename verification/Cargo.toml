[package]
name = "protogen_build"
version = "0.1.0"
edition = "2021"
publish = false

[dependencies]
anyhow = "*"
clap = { version = "*", features = ["derive"] }
handlebars = "*"
heck = "*"
prost-build = "*"
prost-types = "*"
prost-wkt-build = "*"
serde = { version = "*", features = ["derive"] }
serde_json = "*"
toml = "*"
tonic-build = "*"
