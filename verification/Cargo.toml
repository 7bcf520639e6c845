[package]
name = "quark_sim"
version = "0.1.0"
edition = "2021"
publish = false

[dependencies]
candle-core = "*"
candle-nn = "*"
chrono = "*"
eframe = { version = "*", default-features = false, features = ["glow", "default_fonts", "x11"] }
egui_plot = "*"
plotters = { version = "*", default-features = false, features = ["svg_backend", "all_series", "all_elements"] }
rand = "*"
serde = { version = "*", features = ["derive"] }
serde_json = "*"
textplots = "*"
