[package]
name = "midi"
version = "0.1.0"
edition = "2021"
publish = false

[dependencies]
egui = "0.17"
egui_glium = { version = "0.17", default-features = false }
futures = "0.3"
glium = "0.31"
midir = "*"
tokio = { version = "1", features = ["rt-multi-thread", "time"] }
