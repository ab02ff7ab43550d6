[package]
name = "ev3_controller"
version = "0.1.0"
edition = "2021"
publish = false

[dependencies]
anyhow = "1"
eframe = { version = "=0.27.2", default-features = false, features = ["glow"] }
egui = "=0.27.2"
reqwest = { version = "0.12", default-features = false, features = ["blocking"] }
serde = { version = "1", features = ["derive"] }
ssh2 = "0.9"
