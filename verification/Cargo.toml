[package]
name = "apocalyptosis"
version = "0.1.0"
edition = "2021"
publish = false

[dependencies]
indexmap = { version = "=2.14.2", features = ["serde"] }
rand = "=0.10.3"
rand_distr = "=0.6.0"
bevy_platform = "=0.20.1"
chrono = { version = "=0.4.45", features = ["serde"] }
serde = { version = "=1.0.229", features = ["derive"] }
ron = "=0.12.3"
toml = "=1.1.8"
directories = "=6.0.0"
thiserror = "=2.0.21"
fluent = "=0.17.0"
unic-langid = { version = "=0.9.6", features = ["macros"] }
