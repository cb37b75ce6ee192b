[package]
name = "tork_orm"
version = "0.1.0"
edition = "2021"
publish = false

[dependencies]
rusqlite = { version = "*", features = ["bundled"] }
toml = "*"
uuid = { version = "*", features = ["v4"] }
time = { version = "*", features = ["formatting", "parsing", "macros"] }
clap = { version = "*", features = ["derive", "env"] }
