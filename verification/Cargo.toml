[package]
name = "window_actions"
version = "0.1.0"
edition = "2021"
publish = false

[dependencies]
iced = { version = "0.14", features = ["tokio"] }
wayland-client = "0.31"
wayland-protocols-wlr = { version = "0.3", features = ["client"] }
tokio = { version = "1", features = ["time"] }
futures-core = "0.3"
serde = { version = "1", features = ["derive"] }
serde_json = "1"
