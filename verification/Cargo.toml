[package]
name = "mdpdf"
version = "0.3.1"
edition = "2021"
publish = false

[dependencies]
anyhow = "=1.0.104"
clap = { version = "=4.6.7", features = ["derive"] }
rayon = "=1.12.0"
serde = { version = "=1.0.229", features = ["derive"] }
serde_json = "=1.0.154"
typst = "=0.14.2"
typst-pdf = "=0.14.2"
typst-as-lib = { version = "=0.15.5", features = ["typst-kit-fonts", "typst-kit-embed-fonts"] }
typst-embedded-package = { version = "=0.4.0", features = ["read-archive"] }
