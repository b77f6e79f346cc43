[package]
name = "gfx_mesh"
version = "0.1.0"
edition = "2021"
publish = false

[dependencies]
smallvec = "=1.16.4"
gfx-hal = "0.9"
serde = { version = "=1.0.229", features = ["derive"] }
