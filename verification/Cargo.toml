[package]
name = "skyspell"
version = "0.1.0"
edition = "2021"
publish = false

[dependencies]
regex = "1"
anyhow = "1"
clap = { version = "3", features = ["derive"] }
colored = "2"
dialoguer = "*"
dirs-next = "2"
directories-next = "2"
enchant = "*"
diesel = { version = "1.4", features = ["sqlite"] }
diesel_migrations = "1.4"
chrono = "0.4"
serde_json = "1"
pathdiff = "0.2"
itertools = "0.10"
lazy_static = "1"
