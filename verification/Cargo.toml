[package]
name = "contact_captcha"
version = "0.1.0"
edition = "2021"
publish = false

[dependencies]
sha2 = "=0.10.9"
rand = "=0.8.8"
captcha = "=1.0.0"
chrono = "=0.4.45"
fluent-templates = { version = "0.13", features = ["tera"] }
pretty_env_logger = "=0.5.0"
rocket = "=0.5.2"
rocket_dyn_templates = { version = "=0.2.0", features = ["tera"] }
serde = { version = "=1.0.229", features = ["derive"] }
serde_json = "=1.0.154"
tera = "=1.20.1"
