[package]
name = "rustweb"
version = "0.1.0"
edition = "2021"
publish = false

[dependencies]
argon2rs = "=0.2.5"
axum = { version = "=0.5.17", features = ["multipart"] }
clap = { version = "=3.2.25", features = ["derive"] }
lettre = "=0.10.4"
mimalloc = "=0.1.52"
pstd = "=1.0.152"
reqwest = "=0.11.27"
rustdb = "=7.0.63"
tokio = { version = "=1.53.2", features = ["full"] }
tower = "=0.4.13"
tower-cookies = "=0.6.0"
