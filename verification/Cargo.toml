[package]
name = "team_login"
version = "0.1.0"
edition = "2021"
publish = false

[dependencies]
clap = { version = "3.2", features = ["derive"] }
curl = "0.4"
miniserde = "0.1"
