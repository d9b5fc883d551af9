[package]
name = "trivalibs"
version = "0.1.0"
edition = "2021"
publish = false

[dependencies]
glam = { version = "=0.34.1", features = ["bytemuck"] }
bytemuck = { version = "=1.25.2", features = ["derive"] }
serde = { version = "=1.0.229", features = ["derive"] }
serde_repr = "=0.1.21"

[dev-dependencies]
rand = "=0.10.3"
