[package]
name = "pixels_canvas"
version = "0.1.0"
edition = "2021"
publish = false

[dependencies]
chrono = "0.4"
ureq = { version = "2", features = ["json"] }
serde_json = "1"
clap = { version = "4", features = ["derive"] }
