[package]
name = "rest_reminder"
version = "2.0.0"
edition = "2021"
publish = false

[dependencies]
actix-files = "0.6"
actix-web = { version = "4", default-features = false, features = ["macros"] }
chrono = "0.4"
clap = { version = "4", features = ["derive"] }
colored = "2"
plotters = { version = "0.3", default-features = false, features = ["bitmap_backend", "bitmap_encoder", "chrono", "line_series", "point_series"] }
pyo3 = "*"
rand = "0.9"
regex = "1"
rustyline = "*"
serde = { version = "1", features = ["derive"] }
sysinfo = "*"
tokio = { version = "1", features = ["full"] }
walkdir = "2"
widestring = "1"
windows = { version = "0.52", features = ["Win32_Foundation", "Win32_UI_WindowsAndMessaging"] }
