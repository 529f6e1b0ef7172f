[package]
name = "property_preview"
version = "0.1.0"
edition = "2021"
publish = false

[dependencies]
i-slint-backend-selector = { version = "=1.11.0", default-features = false }
i-slint-compiler = { version = "=1.11.0", default-features = false }
i-slint-core = { version = "=1.11.0", default-features = false }
itertools = "=0.13.0"
lsp-types = "=0.95.1"
serde_json = "=1.0.154"
slint-interpreter = { version = "=1.11.0", default-features = false, features = ["compat-1-2", "internal-json"] }
smol_str = "=0.3.7"
