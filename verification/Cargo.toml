[package]
name = "manga_ocr"
version = "0.1.0"
edition = "2021"
publish = false

[dependencies]
anyhow = "1"
arboard = "3"
clap = { version = "4", features = ["derive"] }
hf-hub = { version = "0.4", default-features = false, features = ["ureq"] }
image = { version = "0.25", default-features = false, features = ["png", "jpeg"] }
ndarray = "0.16"
ndarray-stats = "0.6"
ort = { version = "=2.0.0-rc.10", default-features = false, features = ["std", "ndarray", "load-dynamic"] }
serde = { version = "1", features = ["derive"] }
serde_json = "1"
tokenizers = { version = "*", default-features = false, features = ["fancy-regex"] }
