[package]
name = "dioxus_template"
version = "0.1.0"
edition = "2021"
publish = false

[dependencies]
bumpalo = "~3.12"
fxhash = "0.2"
serde = { version = "1", features = ["derive"] }
