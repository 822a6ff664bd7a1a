[package]
name = "egui_web_template"
version = "0.1.0"
edition = "2021"
publish = false

[dependencies]
chrono = { version = "0.4", default-features = false, features = ["clock", "std"] }
egui = "0.27"
egui_extras = { version = "0.27", default-features = false, features = ["datepicker"] }
egui_plot = "0.27"
