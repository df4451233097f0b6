[package]
name = "opencut"
version = "0.1.0"
edition = "2021"
publish = false

[dependencies]
tiny-skia = "=0.11.4"
thiserror = "=2.0.21"
serde = { version = "1", features = ["derive"] }
