[package]
name = "jj-navi"
version = "0.2.3"
edition = "2021"
publish = false

[dependencies]
clap = { version = "4", features = ["derive"] }
futures = "0.3"
jj-lib = { version = "=0.43.0", default-features = false }
pollster = "*"
serde = { version = "1", features = ["derive"] }
serde_json = "1"
thiserror = "2"
time = { version = "0.3", features = ["formatting", "parsing", "macros"] }
toml = "*"
