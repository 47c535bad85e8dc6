[package]
name = "axfetchum"
version = "0.1.7"
edition = "2021"
publish = false

[dependencies]
axum = "0.8"
