[package]
name = "aefr"
version = "0.1.0"
edition = "2021"
publish = false

[dependencies]
rayon = "1"
egui = "0.27"
egui_extras = { version = "0.27", features = ["image"] }
image = { version = "0.24", default-features = false, features = ["png", "jpeg"] }
rodio = "0.19"
rusty_spine = "0.8"
