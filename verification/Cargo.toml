[package]
name = "baluchon"
version = "0.1.0"
edition = "2021"
publish = false

[dependencies]
dirs-next = "=2.0.0"
eframe = { version = "=0.24.1", default-features = false, features = ["default_fonts", "glow", "x11"] }
image = { version = "=0.24.9", default-features = false, features = ["png"] }
libc = "0.2"
serde = { version = "1", features = ["derive"] }
serde_json = "1"
