[package]
name = "blog_core"
version = "0.1.0"
edition = "2021"
publish = false

[dependencies]
diesel = { version = "2", features = ["sqlite", "r2d2"] }
dotenvy = "0.15"
rocket = { version = "0.5", features = ["json"] }
serde = { version = "1", features = ["derive"] }
