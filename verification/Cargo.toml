[package]
name = "multi_mouse_canvas"
version = "0.1.0"
edition = "2021"
publish = false

[dependencies]
serde = { version = "1", features = ["derive"] }
serde_json = "1"
thiserror = "1"
directories = "5"
image = { version = "0.24", default-features = false, features = ["png"] }

[dev-dependencies]
tempfile = "3"
